use image::DynamicImage;
use sulis::spritesheet::{Spritesheet, SpritesheetBuilder, SpritesheetGroup};
use sulis::util::{Point, Size};

fn area(id: &str, coords: Vec<i32>) -> (String, Vec<i32>) {
    (id.to_string(), coords)
}

fn sheet_builder(groups: Vec<(String, SpritesheetGroup)>) -> SpritesheetBuilder {
    SpritesheetBuilder {
        id: "terrain".to_string(),
        src: "terrain.png".to_string(),
        size: Size::new(10, 10),
        groups,
    }
}

#[test]
fn spritesheet_lays_out_sprites_inside_the_image() {
    let group = SpritesheetGroup {
        size: Some(Size::new(2, 2)),
        position: Some(Point::new(1, 1)),
        areas: vec![
            area("a", vec![0, 0]),
            area("b", vec![0, 0, 8, 8]),
            area("c", vec![1]),
            area("d", vec![2, 3, -1, 0]),
        ],
    };
    let second = SpritesheetGroup {
        size: None,
        position: None,
        areas: vec![area("a", vec![5, 5]), area("e", vec![10, 10])],
    };
    let image = DynamicImage::new_rgba8(10, 10);
    let sheet = Spritesheet::new(
        sheet_builder(vec![("first".to_string(), group), ("second".to_string(), second)]),
        &image,
    );
    assert_eq!(sheet.id, "terrain");

    let a = sheet.sprites.get(&"a".to_string()).unwrap();
    assert_eq!(a.position, Point::new(1, 1));
    assert_eq!(a.size, Size::new(2, 2));
    assert_eq!(a.id, "terrain");

    // Its lower corner would be at (11, 11), past the image.
    assert!(!sheet.sprites.contains_key(&"b".to_string()));
    // Neither two nor four coordinates.
    assert!(!sheet.sprites.contains_key(&"c".to_string()));

    let d = sheet.sprites.get(&"d".to_string()).unwrap();
    assert_eq!(d.position, Point::new(3, 4));
    assert_eq!(d.size, Size::new(1, 2));

    // A zero-sized sprite on the image's far corner still fits.
    let e = sheet.sprites.get(&"e".to_string()).unwrap();
    assert_eq!(e.position, Point::new(10, 10));
    assert_eq!(e.size, Size::new(0, 0));

    assert_eq!(sheet.sprites.len(), 3);
}

#[test]
fn spritesheet_first_area_of_an_id_wins() {
    let first = SpritesheetGroup { size: None, position: None, areas: vec![area("x", vec![1, 2])] };
    let second = SpritesheetGroup { size: None, position: None, areas: vec![area("x", vec![3, 4])] };
    let image = DynamicImage::new_rgba8(4, 4);
    let sheet = Spritesheet::new(
        sheet_builder(vec![("g1".to_string(), first), ("g2".to_string(), second)]),
        &image,
    );
    assert_eq!(sheet.sprites.get(&"x".to_string()).unwrap().position, Point::new(1, 2));
}

#[test]
fn spritesheet_out_of_bounds_area_leaves_the_id_free() {
    let group = SpritesheetGroup {
        size: Some(Size::new(1, 1)),
        position: None,
        areas: vec![area("x", vec![-1, 0]), area("x", vec![0, 0])],
    };
    let image = DynamicImage::new_rgba8(2, 2);
    let sheet = Spritesheet::new(sheet_builder(vec![("g".to_string(), group)]), &image);
    assert_eq!(sheet.sprites.get(&"x".to_string()).unwrap().position, Point::new(0, 0));
}

#[test]
fn spritesheet_uses_the_image_dimensions() {
    let group = SpritesheetGroup {
        size: Some(Size::new(1, 1)),
        position: None,
        areas: vec![area("wide", vec![5, 0])],
    };
    let narrow = Spritesheet::new(sheet_builder(vec![("g".to_string(), group)]), &DynamicImage::new_rgba8(3, 8));
    assert!(!narrow.sprites.contains_key(&"wide".to_string()));
    let group = SpritesheetGroup {
        size: Some(Size::new(1, 1)),
        position: None,
        areas: vec![area("wide", vec![5, 0])],
    };
    let wide = Spritesheet::new(sheet_builder(vec![("g".to_string(), group)]), &DynamicImage::new_rgba8(8, 3));
    assert!(wide.sprites.contains_key(&"wide".to_string()));
}

#[test]
fn spritesheet_group_defaults() {
    let g = SpritesheetGroup { size: None, position: None, areas: vec![] };
    assert_eq!(g.get_size(), Size::new(0, 0));
    assert_eq!(g.get_position(), Point::new(0, 0));
    assert_eq!(sheet_builder(vec![]).owned_id(), "terrain");
}
