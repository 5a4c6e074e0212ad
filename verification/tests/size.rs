use sulis::resource::size::{Size, SizeBuilder, SizeError};
use sulis::util::Point;

fn size_of(size: usize, points: Vec<Vec<usize>>) -> Result<Size, SizeError> {
    Size::new(SizeBuilder { size, relative_points: points })
}

#[test]
fn size_relative_points_in_order() {
    let s = size_of(2, vec![vec![0, 0], vec![1, 0], vec![1, 1]]).unwrap();
    assert_eq!(s.size, 2);
    let mut it = s.relative_points();
    assert_eq!(it.next(), Some(Point::new(0, 0)));
    assert_eq!(it.next(), Some(Point::new(1, 0)));
    assert_eq!(it.next(), Some(Point::new(1, 1)));
    assert_eq!(it.next(), None);
    assert_eq!(it.next(), None);
}

#[test]
fn size_points_are_moved_by_the_origin() {
    let s = size_of(2, vec![vec![0, 0], vec![1, 1]]).unwrap();
    let mut it = s.points(3, -4);
    assert_eq!(it.next(), Some(Point::new(3, -4)));
    assert_eq!(it.next(), Some(Point::new(4, -3)));
    assert_eq!(it.next(), None);
}

#[test]
fn size_points_at_zero_match_relative_points() {
    let s = size_of(3, vec![vec![2, 1], vec![0, 2]]).unwrap();
    let mut a = s.points(0, 0);
    let mut b = s.relative_points();
    for _ in 0..3 {
        assert_eq!(a.next(), b.next());
    }
}

#[test]
fn size_empty_is_valid() {
    let s = size_of(0, vec![]).unwrap();
    assert_eq!(s.relative_points().next(), None);
}

#[test]
fn size_point_length_error() {
    assert_eq!(size_of(2, vec![vec![0]]).err(), Some(SizeError::PointLength));
    assert_eq!(size_of(2, vec![vec![0, 0, 0]]).err(), Some(SizeError::PointLength));
}

#[test]
fn size_coordinate_out_of_range() {
    assert_eq!(
        size_of(2, vec![vec![0, 0], vec![2, 0]]).err(),
        Some(SizeError::CoordinateOutOfRange { size: 2 })
    );
    assert_eq!(size_of(2, vec![vec![0, 2]]).err(), Some(SizeError::CoordinateOutOfRange { size: 2 }));
}

#[test]
fn size_first_faulty_point_decides_the_error() {
    assert_eq!(
        size_of(1, vec![vec![5, 5], vec![0]]).err(),
        Some(SizeError::CoordinateOutOfRange { size: 1 })
    );
    assert_eq!(size_of(1, vec![vec![0], vec![5, 5]]).err(), Some(SizeError::PointLength));
}

#[test]
fn sizes_are_equal_by_size() {
    let a = size_of(2, vec![vec![0, 0]]).unwrap();
    let b = size_of(2, vec![vec![1, 1], vec![0, 1]]).unwrap();
    let c = size_of(3, vec![vec![0, 0]]).unwrap();
    assert!(a == b);
    assert!(a != c);
}

#[test]
fn size_builder_id_is_the_size_in_decimal() {
    assert_eq!(SizeBuilder { size: 42, relative_points: vec![] }.owned_id(), "42");
    assert_eq!(SizeBuilder { size: 0, relative_points: vec![] }.owned_id(), "0");
    assert_eq!(SizeBuilder { size: 1007, relative_points: vec![] }.owned_id(), "1007");
}
