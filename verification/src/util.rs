use vstd::prelude::*;

verus! {

/// A position on a grid, in whole units.
#[derive(Clone, Copy, Debug, PartialEq, Eq, Structural)]
pub struct Point {
    pub x: i32,
    pub y: i32,
}

/// Whether `v` lies in the range of `i32`.
pub open spec fn fits_i32(v: int) -> bool {
    i32::MIN <= v <= i32::MAX
}

impl Point {
    pub fn new(x: i32, y: i32) -> (p: Point)
        ensures
            p == (Point { x, y }),
    {
        Point { x, y }
    }

    pub fn as_zero() -> (p: Point)
        ensures
            p == (Point { x: 0, y: 0 }),
    {
        Point { x: 0, y: 0 }
    }

    /// The point moved by `(x, y)`.
    pub fn add(&self, x: i32, y: i32) -> (p: Point)
        requires
            fits_i32(self.x + x),
            fits_i32(self.y + y),
        ensures
            p.x == self.x + x,
            p.y == self.y + y,
    {
        Point { x: self.x + x, y: self.y + y }
    }

    /// Whether the point lies in the rectangle `[0, width) x [0, height)`.
    pub fn in_bounds(&self, width: i32, height: i32) -> (b: bool)
        ensures
            b == (0 <= self.x < width && 0 <= self.y < height),
    {
        self.x >= 0 && self.y >= 0 && self.x < width && self.y < height
    }
}

/// A width and a height, in whole units.
#[derive(Clone, Copy, Debug, PartialEq, Eq, Structural)]
pub struct Size {
    pub width: i32,
    pub height: i32,
}

impl Size {
    pub fn new(width: i32, height: i32) -> (s: Size)
        ensures
            s == (Size { width, height }),
    {
        Size { width, height }
    }

    pub fn as_zero() -> (s: Size)
        ensures
            s == (Size { width: 0, height: 0 }),
    {
        Size { width: 0, height: 0 }
    }

    /// The size grown by `(width, height)`.
    pub fn add(&self, width: i32, height: i32) -> (s: Size)
        requires
            fits_i32(self.width + width),
            fits_i32(self.height + height),
        ensures
            s.width == self.width + width,
            s.height == self.height + height,
    {
        Size { width: self.width + width, height: self.height + height }
    }
}

} // verus!
