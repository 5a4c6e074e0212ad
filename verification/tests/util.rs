use sulis::util::{Point, Size};

#[test]
fn point_add_and_bounds() {
    let p = Point::new(2, 3).add(-1, 4);
    assert_eq!(p, Point::new(1, 7));
    assert!(Point::new(0, 0).in_bounds(1, 1));
    assert!(!Point::new(1, 0).in_bounds(1, 1));
    assert!(!Point::new(-1, 0).in_bounds(5, 5));
    assert_eq!(Point::as_zero(), Point::new(0, 0));
}

#[test]
fn size_add() {
    assert_eq!(Size::new(2, 3).add(1, -1), Size::new(3, 2));
    assert_eq!(Size::as_zero(), Size::new(0, 0));
}
