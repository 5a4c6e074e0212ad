use vstd::prelude::*;

use crate::util::{fits_i32, Point};

verus! {

/// A tile as read from a resource file, before validation.
pub struct TileBuilder {
    pub id: String,
    pub name: String,
    pub width: usize,
    pub height: usize,
    /// The text-mode display, row by row.
    pub text_display: Vec<Vec<char>>,
    /// Impassable cells, each `[x, y]`, or empty to be ignored.
    pub impass: Vec<Vec<usize>>,
}

/// Why a [`TileBuilder`] could not be turned into a [`Tile`].
#[derive(Debug, Clone, Copy, PartialEq, Eq, Structural)]
pub enum TileError {
    /// The text display has more rows than the tile is high.
    TooManyRows { height: usize },
    /// A row of the text display has more columns than the tile is wide.
    TooManyColumns { width: usize },
    /// An impass entry is neither empty nor a pair.
    ImpassLength,
    /// An impass point lies outside the tile.
    ImpassOutOfBounds { width: usize, height: usize },
}

/// A validated tile.
#[derive(Debug)]
pub struct Tile {
    pub id: String,
    pub name: String,
    pub width: i32,
    pub height: i32,
    /// The text-mode display, rows concatenated.
    pub text_display: Vec<char>,
    pub impass: Vec<Point>,
}

/// The rows concatenated, first row first.
pub open spec fn flatten_rows(rows: Seq<Vec<char>>) -> Seq<char>
    decreases rows.len(),
{
    if rows.len() == 0 {
        Seq::empty()
    } else {
        flatten_rows(rows.drop_last()) + rows.last()@
    }
}

/// Row `y` breaks the tile's shape: it is past the last row allowed,
/// or longer than the tile is wide.
pub open spec fn row_faulty(rows: Seq<Vec<char>>, y: int, width: usize, height: usize) -> bool {
    y >= height || rows[y]@.len() > width
}

/// `y` is the first faulty row.
pub open spec fn first_faulty_row(rows: Seq<Vec<char>>, y: int, width: usize, height: usize) -> bool {
    &&& 0 <= y < rows.len()
    &&& row_faulty(rows, y, width, height)
    &&& forall|j: int| 0 <= j < y ==> !row_faulty(rows, j, width, height)
}

pub open spec fn display_valid(rows: Seq<Vec<char>>, width: usize, height: usize) -> bool {
    forall|y: int| 0 <= y < rows.len() ==> !row_faulty(rows, y, width, height)
}

/// The error for the first faulty row of the display, which must exist.
pub open spec fn display_error(rows: Seq<Vec<char>>, width: usize, height: usize) -> TileError {
    let y = choose|y: int| first_faulty_row(rows, y, width, height);
    if y >= height {
        TileError::TooManyRows { height }
    } else {
        TileError::TooManyColumns { width }
    }
}

/// An impass entry that is neither empty nor a pair inside the tile.
pub open spec fn impass_faulty(p: Seq<usize>, width: usize, height: usize) -> bool {
    p.len() != 0 && (p.len() != 2 || p[0] >= width || p[1] >= height)
}

pub open spec fn first_faulty_impass(ps: Seq<Vec<usize>>, i: int, width: usize, height: usize) -> bool {
    &&& 0 <= i < ps.len()
    &&& impass_faulty(ps[i]@, width, height)
    &&& forall|j: int| 0 <= j < i ==> !impass_faulty(ps[j]@, width, height)
}

pub open spec fn impass_valid(ps: Seq<Vec<usize>>, width: usize, height: usize) -> bool {
    forall|i: int| 0 <= i < ps.len() ==> !impass_faulty(ps[i]@, width, height)
}

/// The error for the first faulty impass entry, which must exist.
pub open spec fn impass_error(ps: Seq<Vec<usize>>, width: usize, height: usize) -> TileError {
    let i = choose|i: int| first_faulty_impass(ps, i, width, height);
    if ps[i]@.len() != 2 {
        TileError::ImpassLength
    } else {
        TileError::ImpassOutOfBounds { width, height }
    }
}

/// The impassable points of the non-empty entries, in order.
pub open spec fn impass_points(ps: Seq<Vec<usize>>) -> Seq<Point>
    decreases ps.len(),
{
    if ps.len() == 0 {
        Seq::empty()
    } else if ps.last()@.len() == 0 {
        impass_points(ps.drop_last())
    } else {
        impass_points(ps.drop_last()).push(
            Point { x: ps.last()@[0] as i32, y: ps.last()@[1] as i32 },
        )
    }
}

impl TileBuilder {
    /// The builder describes a valid tile.
    pub open spec fn valid(&self) -> bool {
        display_valid(self.text_display@, self.width, self.height) && impass_valid(
            self.impass@,
            self.width,
            self.height,
        )
    }

    /// The error that an invalid builder is refused with: the display is
    /// validated first, row by row, then the impass entries in order.
    pub open spec fn error(&self) -> TileError {
        if !display_valid(self.text_display@, self.width, self.height) {
            display_error(self.text_display@, self.width, self.height)
        } else {
            impass_error(self.impass@, self.width, self.height)
        }
    }

    /// The id under which the tile is registered.
    pub fn owned_id(&self) -> (id: String)
        ensures
            id@ == self.id@,
    {
        self.id.clone()
    }
}

proof fn lemma_first_faulty_row_unique(rows: Seq<Vec<char>>, y: int, width: usize, height: usize)
    requires
        first_faulty_row(rows, y, width, height),
    ensures
        (choose|z: int| first_faulty_row(rows, z, width, height)) == y,
{
    let z = choose|z: int| first_faulty_row(rows, z, width, height);
    assert(first_faulty_row(rows, z, width, height));
    if z < y {
        assert(!row_faulty(rows, z, width, height));
    }
    if y < z {
        assert(!row_faulty(rows, y, width, height));
    }
}

proof fn lemma_first_faulty_impass_unique(ps: Seq<Vec<usize>>, i: int, width: usize, height: usize)
    requires
        first_faulty_impass(ps, i, width, height),
    ensures
        (choose|z: int| first_faulty_impass(ps, z, width, height)) == i,
{
    let z = choose|z: int| first_faulty_impass(ps, z, width, height);
    assert(first_faulty_impass(ps, z, width, height));
    if z < i {
        assert(!impass_faulty(ps[z]@, width, height));
    }
    if i < z {
        assert(!impass_faulty(ps[i]@, width, height));
    }
}

impl Tile {
    /// Validates `builder` and builds the tile it describes.
    pub fn new(builder: TileBuilder) -> (r: Result<Tile, TileError>)
        ensures
            r is Ok <==> builder.valid(),
            r matches Err(e) ==> e == builder.error(),
            r matches Ok(t) ==> {
                &&& t.id == builder.id
                &&& t.name == builder.name
                &&& t.width == builder.width as i32
                &&& t.height == builder.height as i32
                &&& t.text_display@ == flatten_rows(builder.text_display@)
                &&& t.impass@ == impass_points(builder.impass@)
            },
    {
        let mut display_vec: Vec<char> = Vec::new();
        let mut impass_vec: Vec<Point> = Vec::new();
        let ghost rows = builder.text_display@;
        let width = builder.width;
        let height = builder.height;

        let n_rows = builder.text_display.len();
        let mut y: usize = 0;
        while y < n_rows
            invariant
                n_rows == rows.len(),
                rows == builder.text_display@,
                width == builder.width,
                height == builder.height,
                y <= n_rows,
                forall|j: int| 0 <= j < y ==> !row_faulty(rows, j, width, height),
                display_vec@ == flatten_rows(rows.take(y as int)),
            decreases n_rows - y,
        {
            if y >= height {
                proof {
                    assert(first_faulty_row(rows, y as int, width, height));
                    lemma_first_faulty_row_unique(rows, y as int, width, height);
                }
                return Err(TileError::TooManyRows { height });
            }
            let row = &builder.text_display[y];
            let n_cols = row.len();
            let ghost before = display_vec@;
            let mut x: usize = 0;
            while x < n_cols
                invariant
                    n_cols == row@.len(),
                    rows == builder.text_display@,
                    width == builder.width,
                    height == builder.height,
                    n_rows == rows.len(),
                    y < n_rows,
                    y < height,
                    *row == rows[y as int],
                    forall|j: int| 0 <= j < y ==> !row_faulty(rows, j, width, height),
                    x <= n_cols,
                    x <= width,
                    display_vec@ == before + row@.take(x as int),
                decreases n_cols - x,
            {
                if x >= width {
                    proof {
                        assert(row_faulty(rows, y as int, width, height));
                        assert(first_faulty_row(rows, y as int, width, height));
                        lemma_first_faulty_row_unique(rows, y as int, width, height);
                    }
                    return Err(TileError::TooManyColumns { width });
                }
                display_vec.push(row[x]);
                proof {
                    assert(row@.take(x + 1) =~= row@.take(x as int).push(row@[x as int]));
                }
                x = x + 1;
            }
            proof {
                assert(row@.take(n_cols as int) =~= row@);
                assert(rows.take(y + 1).drop_last() =~= rows.take(y as int));
                assert(rows.take(y + 1).last() == rows[y as int]);
            }
            y = y + 1;
        }
        proof {
            assert(rows.take(n_rows as int) =~= rows);
        }

        let ghost ps = builder.impass@;
        let n_impass = builder.impass.len();
        let mut i: usize = 0;
        while i < n_impass
            invariant
                n_impass == ps.len(),
                ps == builder.impass@,
                width == builder.width,
                height == builder.height,
                display_valid(rows, width, height),
                rows == builder.text_display@,
                display_vec@ == flatten_rows(rows),
                i <= n_impass,
                forall|j: int| 0 <= j < i ==> !impass_faulty(ps[j]@, width, height),
                impass_vec@ == impass_points(ps.take(i as int)),
            decreases n_impass - i,
        {
            let p = &builder.impass[i];
            proof {
                assert(ps.take(i + 1).drop_last() =~= ps.take(i as int));
                assert(ps.take(i + 1).last() == ps[i as int]);
            }
            if p.len() != 0 {
                if p.len() != 2 {
                    proof {
                        assert(first_faulty_impass(ps, i as int, width, height));
                        lemma_first_faulty_impass_unique(ps, i as int, width, height);
                    }
                    return Err(TileError::ImpassLength);
                }
                let x = p[0];
                let y = p[1];
                if x >= width || y >= height {
                    proof {
                        assert(first_faulty_impass(ps, i as int, width, height));
                        lemma_first_faulty_impass_unique(ps, i as int, width, height);
                    }
                    return Err(TileError::ImpassOutOfBounds { width, height });
                }
                impass_vec.push(Point::new(x as i32, y as i32));
            }
            i = i + 1;
        }
        proof {
            assert(ps.take(n_impass as int) =~= ps);
        }

        Ok(Tile {
            id: builder.id,
            name: builder.name,
            width: builder.width as i32,
            height: builder.height as i32,
            text_display: display_vec,
            impass: impass_vec,
        })
    }
}

impl Tile {
    /// The text-mode character at column `x` of row `y`.
    pub fn get_text_display(&self, x: i32, y: i32) -> (c: char)
        requires
            fits_i32(y * self.width),
            fits_i32(x + y * self.width),
            0 <= x + y * self.width < self.text_display@.len(),
        ensures
            c == self.text_display@[x + y * self.width],
    {
        let index = x + y * self.width;
        self.text_display[index as usize]
    }
}

/// Two tiles are the same tile when their ids are equal.
impl PartialEq for Tile {
    fn eq(&self, other: &Tile) -> (r: bool) {
        self.id == other.id
    }
}

impl vstd::std_specs::cmp::PartialEqSpecImpl for Tile {
    open spec fn obeys_eq_spec() -> bool {
        true
    }

    open spec fn eq_spec(&self, other: &Tile) -> bool {
        self.id@ == other.id@
    }
}

/// Row-major reading: when every row is `width` characters long, the
/// concatenated display holds `rows.len() * width` characters, and the one
/// at `x + y * width` is the character at column `x` of row `y`.
pub proof fn lemma_text_display_row_major(rows: Seq<Vec<char>>, width: nat, x: int, y: int)
    requires
        forall|r: int| 0 <= r < rows.len() ==> #[trigger] rows[r]@.len() == width,
        0 <= x < width,
        0 <= y < rows.len(),
    ensures
        flatten_rows(rows).len() == rows.len() * width,
        flatten_rows(rows)[x + y * width] == rows[y]@[x],
    decreases rows.len(),
{
    lemma_flatten_rows_len(rows, width);
    let n = rows.len();
    let front = rows.drop_last();
    lemma_flatten_rows_len(front, width);
    if y < n - 1 {
        assert(x + y * width < (n - 1) * width) by (nonlinear_arith)
            requires
                0 <= x < width,
                0 <= y < n - 1,
        ;
        assert(0 <= x + y * width) by (nonlinear_arith)
            requires
                0 <= x,
                0 <= y,
        ;
        assert(front[y] == rows[y]);
        lemma_text_display_row_major(front, width, x, y);
    } else {
        assert(y * width == (n - 1) * width);
    }
}

proof fn lemma_flatten_rows_len(rows: Seq<Vec<char>>, width: nat)
    requires
        forall|r: int| 0 <= r < rows.len() ==> #[trigger] rows[r]@.len() == width,
    ensures
        flatten_rows(rows).len() == rows.len() * width,
    decreases rows.len(),
{
    if rows.len() > 0 {
        let front = rows.drop_last();
        assert forall|r: int| 0 <= r < front.len() implies #[trigger] front[r]@.len() == width by {
            assert(front[r] == rows[r]);
        }
        lemma_flatten_rows_len(front, width);
        let n = rows.len();
        assert((n - 1) * width + width == n * width) by (nonlinear_arith);
    }
}

/// A tile builder is accepted exactly when its display has at most `height`
/// rows, none longer than `width`, and every impass entry is empty or a pair
/// `[x, y]` with `x < width` and `y < height`.
pub proof fn lemma_tile_acceptance(b: TileBuilder)
    ensures
        b.valid() <==> {
            &&& b.text_display@.len() <= b.height
            &&& forall|y: int|
                0 <= y < b.text_display@.len() ==> #[trigger] b.text_display@[y]@.len() <= b.width
            &&& forall|i: int|
                0 <= i < b.impass@.len() ==> (#[trigger] b.impass@[i]@.len() == 0 || (
                b.impass@[i]@.len() == 2 && b.impass@[i]@[0] < b.width && b.impass@[i]@[1]
                    < b.height))
        },
{
    let rows = b.text_display@;
    if display_valid(rows, b.width, b.height) && rows.len() > 0 {
        assert(!row_faulty(rows, rows.len() - 1, b.width, b.height));
    }
    if b.text_display@.len() <= b.height && forall|y: int|
        0 <= y < rows.len() ==> #[trigger] rows[y]@.len() <= b.width {
        assert forall|y: int| 0 <= y < rows.len() implies !row_faulty(rows, y, b.width, b.height) by {
            assert(rows[y]@.len() <= b.width);
        }
    }
    if display_valid(rows, b.width, b.height) {
        assert forall|y: int| 0 <= y < rows.len() implies #[trigger] rows[y]@.len() <= b.width by {
            assert(!row_faulty(rows, y, b.width, b.height));
        }
    }
}

/// Every impassable point of a tile comes from a pair `[x, y]` among the
/// impass entries, and every pair gives one: the points are the pairs.
pub proof fn lemma_impass_points_are_the_pairs(ps: Seq<Vec<usize>>)
    requires
        forall|i: int| 0 <= i < ps.len() ==> #[trigger] ps[i]@.len() == 0 || ps[i]@.len() == 2,
    ensures
        forall|k: int|
            #![trigger impass_points(ps)[k]]
            0 <= k < impass_points(ps).len() ==> exists|i: int|
                #![trigger ps[i]]
                0 <= i < ps.len() && ps[i]@.len() == 2 && impass_points(ps)[k] == (Point {
                    x: ps[i]@[0] as i32,
                    y: ps[i]@[1] as i32,
                }),
        forall|i: int|
            #![trigger ps[i]]
            0 <= i < ps.len() && ps[i]@.len() == 2 ==> impass_points(ps).contains(
                Point { x: ps[i]@[0] as i32, y: ps[i]@[1] as i32 },
            ),
    decreases ps.len(),
{
    if ps.len() > 0 {
        let front = ps.drop_last();
        assert forall|i: int| 0 <= i < front.len() implies #[trigger] front[i]@.len() == 0
            || front[i]@.len() == 2 by {
            assert(front[i] == ps[i]);
        }
        lemma_impass_points_are_the_pairs(front);
        let n = ps.len();
        let fp = impass_points(front);
        assert forall|k: int| 0 <= k < impass_points(ps).len() implies exists|i: int|
            #![trigger ps[i]]
            0 <= i < ps.len() && ps[i]@.len() == 2 && #[trigger] impass_points(ps)[k] == (Point {
                x: ps[i]@[0] as i32,
                y: ps[i]@[1] as i32,
            }) by {
            if k < fp.len() {
                assert(impass_points(ps)[k] == fp[k]);
                let i = choose|i: int|
                    #![trigger front[i]]
                    0 <= i < front.len() && front[i]@.len() == 2 && fp[k] == (Point {
                        x: front[i]@[0] as i32,
                        y: front[i]@[1] as i32,
                    });
                assert(front[i] == ps[i]);
            } else {
                assert(ps[n - 1]@.len() == 2);
            }
        }
        assert forall|i: int| 0 <= i < ps.len() && #[trigger] ps[i]@.len() == 2 implies impass_points(
            ps,
        ).contains(Point { x: ps[i]@[0] as i32, y: ps[i]@[1] as i32 }) by {
            let q = Point { x: ps[i]@[0] as i32, y: ps[i]@[1] as i32 };
            if i < n - 1 {
                assert(front[i] == ps[i]);
                assert(front[i]@.len() == 2);
                assert(fp.contains(q));
                let k = choose|k: int| 0 <= k < fp.len() && fp[k] == q;
                assert(impass_points(ps)[k] == q);
            } else {
                assert(impass_points(ps)[impass_points(ps).len() - 1] == q);
            }
        }
    }
}

} // verus!
