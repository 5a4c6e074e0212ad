use sulis::resource::tile::{Tile, TileBuilder, TileError};
use sulis::util::Point;

fn builder(width: usize, height: usize, rows: Vec<Vec<char>>, impass: Vec<Vec<usize>>) -> TileBuilder {
    TileBuilder {
        id: "grass".to_string(),
        name: "Grass".to_string(),
        width,
        height,
        text_display: rows,
        impass,
    }
}

#[test]
fn tile_new_flattens_rows_and_keeps_non_empty_impass() {
    let b = builder(2, 2, vec![vec!['a', 'b'], vec!['c', 'd']], vec![vec![1, 0], vec![], vec![0, 1]]);
    let tile = Tile::new(b).unwrap();
    assert_eq!(tile.id, "grass");
    assert_eq!(tile.name, "Grass");
    assert_eq!(tile.width, 2);
    assert_eq!(tile.height, 2);
    assert_eq!(tile.text_display, vec!['a', 'b', 'c', 'd']);
    assert_eq!(tile.impass, vec![Point::new(1, 0), Point::new(0, 1)]);
}

#[test]
fn tile_text_display_reads_row_major() {
    let rows = vec![vec!['a', 'b', 'c'], vec!['d', 'e', 'f']];
    let tile = Tile::new(builder(3, 2, rows.clone(), vec![])).unwrap();
    for y in 0..2 {
        for x in 0..3 {
            assert_eq!(tile.get_text_display(x as i32, y as i32), rows[y][x]);
        }
    }
}

#[test]
fn tile_rows_may_be_short() {
    let tile = Tile::new(builder(3, 3, vec![vec!['a'], vec![]], vec![])).unwrap();
    assert_eq!(tile.text_display, vec!['a']);
}

#[test]
fn tile_too_many_rows() {
    let r = Tile::new(builder(2, 1, vec![vec!['a'], vec!['b']], vec![]));
    assert_eq!(r.err(), Some(TileError::TooManyRows { height: 1 }));
}

#[test]
fn tile_too_many_columns() {
    let r = Tile::new(builder(1, 2, vec![vec!['a', 'b']], vec![]));
    assert_eq!(r.err(), Some(TileError::TooManyColumns { width: 1 }));
}

#[test]
fn tile_first_faulty_row_decides_the_error() {
    // Row 0 is too wide before the rows run past the height.
    let r = Tile::new(builder(1, 1, vec![vec!['a', 'b'], vec!['c']], vec![]));
    assert_eq!(r.err(), Some(TileError::TooManyColumns { width: 1 }));
}

#[test]
fn tile_display_is_validated_before_impass() {
    let r = Tile::new(builder(1, 1, vec![vec!['a'], vec!['b']], vec![vec![7]]));
    assert_eq!(r.err(), Some(TileError::TooManyRows { height: 1 }));
}

#[test]
fn tile_impass_length() {
    let r = Tile::new(builder(2, 2, vec![], vec![vec![], vec![1]]));
    assert_eq!(r.err(), Some(TileError::ImpassLength));
    let r = Tile::new(builder(2, 2, vec![], vec![vec![0, 0, 0]]));
    assert_eq!(r.err(), Some(TileError::ImpassLength));
}

#[test]
fn tile_impass_out_of_bounds() {
    let r = Tile::new(builder(2, 3, vec![], vec![vec![1, 2], vec![2, 0]]));
    assert_eq!(r.err(), Some(TileError::ImpassOutOfBounds { width: 2, height: 3 }));
    let r = Tile::new(builder(2, 3, vec![], vec![vec![0, 3]]));
    assert_eq!(r.err(), Some(TileError::ImpassOutOfBounds { width: 2, height: 3 }));
}

#[test]
fn tiles_are_equal_by_id() {
    let a = Tile::new(builder(1, 1, vec![vec!['a']], vec![])).unwrap();
    let mut other = builder(2, 2, vec![], vec![]);
    other.name = "Other".to_string();
    let b = Tile::new(other).unwrap();
    assert!(a == b);
    let mut third = builder(1, 1, vec![], vec![]);
    third.id = "water".to_string();
    let c = Tile::new(third).unwrap();
    assert!(a != c);
}

#[test]
fn tile_builder_owned_id() {
    assert_eq!(builder(1, 1, vec![], vec![]).owned_id(), "grass");
}
