use vstd::prelude::*;

use crate::text::{decimal_text, usize_to_string};
use crate::util::{fits_i32, Point};

verus! {

/// A creature or object size as read from a resource file, before validation.
pub struct SizeBuilder {
    pub size: usize,
    /// The cells that the size covers, each `[x, y]`, relative to its origin.
    pub relative_points: Vec<Vec<usize>>,
}

/// Why a [`SizeBuilder`] could not be turned into a [`Size`].
#[derive(Debug, Clone, Copy, PartialEq, Eq, Structural)]
pub enum SizeError {
    /// A point is not a pair.
    PointLength,
    /// A point has a coordinate not below the size.
    CoordinateOutOfRange { size: usize },
}

/// A point entry that is not a pair inside the `size` by `size` square.
pub open spec fn size_point_faulty(p: Seq<usize>, size: usize) -> bool {
    p.len() != 2 || p[0] >= size || p[1] >= size
}

pub open spec fn first_faulty_point(ps: Seq<Vec<usize>>, i: int, size: usize) -> bool {
    &&& 0 <= i < ps.len()
    &&& size_point_faulty(ps[i]@, size)
    &&& forall|j: int| 0 <= j < i ==> !size_point_faulty(ps[j]@, size)
}

/// The points of the entries, in order.
pub open spec fn size_points(ps: Seq<Vec<usize>>) -> Seq<Point> {
    ps.map_values(|p: Vec<usize>| Point { x: p@[0] as i32, y: p@[1] as i32 })
}

/// The points moved by `(dx, dy)`.
pub open spec fn moved_points(ps: Seq<Point>, dx: i32, dy: i32) -> Seq<Point> {
    ps.map_values(|p: Point| Point { x: (p.x + dx) as i32, y: (p.y + dy) as i32 })
}

/// Every point moved by `(dx, dy)` stays representable.
pub open spec fn offsets_fit(ps: Seq<Point>, dx: i32, dy: i32) -> bool {
    forall|i: int| 0 <= i < ps.len() ==> fits_i32(#[trigger] ps[i].x + dx) && fits_i32(ps[i].y + dy)
}

impl SizeBuilder {
    pub open spec fn valid(&self) -> bool {
        forall|i: int|
            0 <= i < self.relative_points@.len() ==> !size_point_faulty(
                #[trigger] self.relative_points@[i]@,
                self.size,
            )
    }

    /// The error that an invalid builder is refused with, from its first
    /// faulty point.
    pub open spec fn error(&self) -> SizeError {
        let i = choose|i: int| first_faulty_point(self.relative_points@, i, self.size);
        if self.relative_points@[i]@.len() != 2 {
            SizeError::PointLength
        } else {
            SizeError::CoordinateOutOfRange { size: self.size }
        }
    }

    /// The id under which the size is registered: its size in decimal.
    pub fn owned_id(&self) -> (id: String)
        ensures
            id@ == decimal_text(self.size as nat),
    {
        usize_to_string(self.size)
    }
}

proof fn lemma_first_faulty_point_unique(ps: Seq<Vec<usize>>, i: int, size: usize)
    requires
        first_faulty_point(ps, i, size),
    ensures
        (choose|z: int| first_faulty_point(ps, z, size)) == i,
{
    let z = choose|z: int| first_faulty_point(ps, z, size);
    assert(first_faulty_point(ps, z, size));
    if z < i {
        assert(!size_point_faulty(ps[z]@, size));
    }
    if i < z {
        assert(!size_point_faulty(ps[i]@, size));
    }
}

/// A validated size: the cells it covers, relative to its origin.
pub struct Size {
    pub size: usize,
    relative_points: Vec<Point>,
}

impl Size {
    /// The side of the square that the cells lie in.
    pub closed spec fn side(&self) -> usize {
        self.size
    }

    /// The covered cells, relative to the origin.
    pub closed spec fn relative(&self) -> Seq<Point> {
        self.relative_points@
    }

    /// Validates `builder` and builds the size it describes.
    pub fn new(builder: SizeBuilder) -> (r: Result<Size, SizeError>)
        ensures
            r is Ok <==> builder.valid(),
            r matches Err(e) ==> e == builder.error(),
            r matches Ok(s) ==> s.side() == builder.size && s.relative() == size_points(
                builder.relative_points@,
            ),
    {
        let mut points: Vec<Point> = Vec::new();
        let ghost ps = builder.relative_points@;
        let n = builder.relative_points.len();
        let mut i: usize = 0;
        while i < n
            invariant
                n == ps.len(),
                ps == builder.relative_points@,
                i <= n,
                forall|j: int| 0 <= j < i ==> !size_point_faulty(ps[j]@, builder.size),
                points@ == size_points(ps.take(i as int)),
            decreases n - i,
        {
            let p = &builder.relative_points[i];
            if p.len() != 2 {
                proof {
                    assert(first_faulty_point(ps, i as int, builder.size));
                    lemma_first_faulty_point_unique(ps, i as int, builder.size);
                }
                return Err(SizeError::PointLength);
            }
            let x = p[0];
            let y = p[1];
            if x >= builder.size || y >= builder.size {
                proof {
                    assert(first_faulty_point(ps, i as int, builder.size));
                    lemma_first_faulty_point_unique(ps, i as int, builder.size);
                }
                return Err(SizeError::CoordinateOutOfRange { size: builder.size });
            }
            points.push(Point::new(x as i32, y as i32));
            proof {
                assert(size_points(ps.take(i + 1)) =~= size_points(ps.take(i as int)).push(
                    Point { x: ps[i as int]@[0] as i32, y: ps[i as int]@[1] as i32 },
                ));
            }
            i = i + 1;
        }
        proof {
            assert(ps.take(n as int) =~= ps);
        }
        Ok(Size { size: builder.size, relative_points: points })
    }

    /// The covered cells, relative to the origin, one by one.
    pub fn relative_points(&self) -> (it: SizeIterator<'_>)
        ensures
            it.remaining() == self.relative(),
    {
        let it = SizeIterator { size: self, index: 0, x_offset: 0, y_offset: 0 };
        proof {
            assert(it.remaining() =~= self.relative());
        }
        it
    }

    /// The covered cells when the origin is at `(x, y)`, one by one.
    pub fn points(&self, x: i32, y: i32) -> (it: SizeIterator<'_>)
        requires
            offsets_fit(self.relative(), x, y),
        ensures
            it.remaining() == moved_points(self.relative(), x, y),
    {
        let it = SizeIterator { size: self, index: 0, x_offset: x, y_offset: y };
        proof {
            assert(it.remaining() =~= moved_points(self.relative(), x, y));
        }
        it
    }
}

/// Two sizes are the same size when their `size` fields are equal.
impl PartialEq for Size {
    fn eq(&self, other: &Size) -> (r: bool) {
        self.size == other.size
    }
}

impl vstd::std_specs::cmp::PartialEqSpecImpl for Size {
    open spec fn obeys_eq_spec() -> bool {
        true
    }

    open spec fn eq_spec(&self, other: &Size) -> bool {
        self.side() == other.side()
    }
}

/// The cells of a [`Size`], moved by an offset, handed out one at a time.
pub struct SizeIterator<'a> {
    size: &'a Size,
    index: usize,
    x_offset: i32,
    y_offset: i32,
}

impl<'a> SizeIterator<'a> {
    #[verifier::type_invariant]
    spec fn moved_cells_fit(&self) -> bool {
        &&& self.index <= self.size.relative_points@.len()
        &&& offsets_fit(self.size.relative_points@, self.x_offset, self.y_offset)
    }

    /// The cells still to be handed out, in order.
    pub closed spec fn remaining(&self) -> Seq<Point> {
        moved_points(self.size.relative_points@, self.x_offset, self.y_offset).skip(
            self.index as int,
        )
    }

    /// The next cell, or `None` once all have been handed out.
    pub fn next(&mut self) -> (r: Option<Point>)
        ensures
            old(self).remaining().len() == 0 ==> r is None && final(self).remaining().len() == 0,
            old(self).remaining().len() > 0 ==> r == Some(old(self).remaining()[0])
                && final(self).remaining() == old(self).remaining().drop_first(),
    {
        proof {
            use_type_invariant(&*self);
        }
        if self.index < self.size.relative_points.len() {
            let p = self.size.relative_points[self.index];
            let moved = p.add(self.x_offset, self.y_offset);
            self.index = self.index + 1;
            proof {
                assert(self.remaining() =~= old(self).remaining().drop_first());
            }
            Some(moved)
        } else {
            None
        }
    }
}

/// Moving by zero leaves the cells as they are: with the origin at `(0, 0)`,
/// `Size::points` hands out what `Size::relative_points` does.
pub proof fn lemma_moved_by_zero(ps: Seq<Point>)
    ensures
        moved_points(ps, 0, 0) == ps,
{
    assert(moved_points(ps, 0, 0) =~= ps);
}

/// Moving by `(a, b)` and then by `(c, d)` is moving by `(a + c, b + d)`,
/// where no coordinate leaves the range of `i32`.
pub proof fn lemma_moved_compose(ps: Seq<Point>, a: i32, b: i32, c: i32, d: i32)
    requires
        offsets_fit(ps, a, b),
        offsets_fit(moved_points(ps, a, b), c, d),
        fits_i32(a + c),
        fits_i32(b + d),
    ensures
        moved_points(moved_points(ps, a, b), c, d) == moved_points(ps, (a + c) as i32, (b + d) as i32),
{
    assert forall|i: int| 0 <= i < ps.len() implies moved_points(moved_points(ps, a, b), c, d)[i]
        == moved_points(ps, (a + c) as i32, (b + d) as i32)[i] by {
        assert(fits_i32(moved_points(ps, a, b)[i].x + c));
        assert(fits_i32(ps[i].x + a));
    }
    assert(moved_points(moved_points(ps, a, b), c, d) =~= moved_points(ps, (a + c) as i32, (b + d) as i32));
}

/// A size builder is accepted exactly when every point is a pair `[x, y]`
/// with both coordinates below the size; the cells are then those pairs, in
/// order.
pub proof fn lemma_size_acceptance(b: SizeBuilder)
    ensures
        b.valid() <==> forall|i: int|
            0 <= i < b.relative_points@.len() ==> (#[trigger] b.relative_points@[i]@.len() == 2
                && b.relative_points@[i]@[0] < b.size && b.relative_points@[i]@[1] < b.size),
        size_points(b.relative_points@).len() == b.relative_points@.len(),
        forall|i: int|
            0 <= i < b.relative_points@.len() ==> #[trigger] size_points(b.relative_points@)[i] == (
            Point { x: b.relative_points@[i]@[0] as i32, y: b.relative_points@[i]@[1] as i32 }),
{
    let ps = b.relative_points@;
    if b.valid() {
        assert forall|i: int| 0 <= i < ps.len() implies (#[trigger] ps[i]@.len() == 2 && ps[i]@[0]
            < b.size && ps[i]@[1] < b.size) by {
            assert(!size_point_faulty(ps[i]@, b.size));
        }
    }
    if forall|i: int|
        0 <= i < ps.len() ==> (#[trigger] ps[i]@.len() == 2 && ps[i]@[0] < b.size && ps[i]@[1]
            < b.size) {
        assert forall|i: int| 0 <= i < ps.len() implies !size_point_faulty(#[trigger] ps[i]@, b.size) by {
            assert(ps[i]@.len() == 2);
        }
    }
}

} // verus!
