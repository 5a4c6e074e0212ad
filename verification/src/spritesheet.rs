use vstd::prelude::*;

use std::rc::Rc;

use image::DynamicImage;

use crate::raster::{RgbaImage, rgba_copy, rgba_dimensions, rgba_image_dimensions, to_rgba};
use crate::resource_map::ResourceMap;
use crate::util::{fits_i32, Point, Size};

verus! {

/// A group of sprites that share a base position and a base size.
pub struct SpritesheetGroup {
    pub size: Option<Size>,
    pub position: Option<Point>,
    /// Each sprite's id with its coordinates: `[x, y]`, relative to the base
    /// position with the base size, or `[x, y, w, h]`, which also grows the
    /// base size.
    pub areas: Vec<(String, Vec<i32>)>,
}

/// A spritesheet as read from a resource file.
pub struct SpritesheetBuilder {
    pub id: String,
    /// The image file, relative to the resource directory.
    pub src: String,
    pub size: Size,
    /// The groups with their names, in the order in which they were read.
    pub groups: Vec<(String, SpritesheetGroup)>,
}

/// A rectangle of a spritesheet's image.
#[derive(Debug)]
pub struct Sprite {
    /// The id of the sheet that the sprite belongs to.
    pub id: String,
    pub position: Point,
    pub size: Size,
}

/// An image with the sprites laid out on it.
pub struct Spritesheet {
    pub id: String,
    pub image: RgbaImage,
    pub sprites: ResourceMap<Rc<Sprite>>,
}

pub open spec fn base_size(g: SpritesheetGroup) -> Size {
    match g.size {
        Some(s) => s,
        None => Size { width: 0, height: 0 },
    }
}

pub open spec fn base_position(g: SpritesheetGroup) -> Point {
    match g.position {
        Some(p) => p,
        None => Point { x: 0, y: 0 },
    }
}

/// The position and size of the sprite that `area` describes in group `g`,
/// or `None` when it has neither two nor four coordinates.
pub open spec fn area_rect(g: SpritesheetGroup, area: Seq<i32>) -> Option<(Point, Size)> {
    let bp = base_position(g);
    let bs = base_size(g);
    if area.len() == 2 || area.len() == 4 {
        let p = Point { x: (bp.x + area[0]) as i32, y: (bp.y + area[1]) as i32 };
        if area.len() == 2 {
            Some((p, bs))
        } else {
            Some((p, Size { width: (bs.width + area[2]) as i32, height: (bs.height + area[3]) as i32 }))
        }
    } else {
        None
    }
}

/// The sums that placing `area` computes all fit in an `i32`.
pub open spec fn area_fits(g: SpritesheetGroup, area: Seq<i32>) -> bool {
    let bp = base_position(g);
    let bs = base_size(g);
    (area.len() == 2 || area.len() == 4) ==> {
        &&& fits_i32(bp.x + area[0])
        &&& fits_i32(bp.y + area[1])
        &&& area.len() == 4 ==> fits_i32(bs.width + area[2]) && fits_i32(bs.height + area[3])
        &&& area_rect(g, area) matches Some((p, s)) && fits_i32(p.x + s.width) && fits_i32(
            p.y + s.height,
        )
    }
}

pub open spec fn group_fits(g: SpritesheetGroup) -> bool {
    forall|a: int| 0 <= a < g.areas@.len() ==> area_fits(g, #[trigger] g.areas@[a].1@)
}

impl SpritesheetBuilder {
    /// Every coordinate sum that laying out the sheet computes fits in an `i32`.
    pub open spec fn fits(&self) -> bool {
        forall|i: int| 0 <= i < self.groups@.len() ==> group_fits(#[trigger] self.groups@[i].1)
    }

    pub fn owned_id(&self) -> (id: String)
        ensures
            id@ == self.id@,
    {
        self.id.clone()
    }
}

/// The ids of the areas of `g` with the rectangles they describe.
pub open spec fn group_entries(g: SpritesheetGroup) -> Seq<(Seq<char>, Option<(Point, Size)>)> {
    g.areas@.map_values(|a: (String, Vec<i32>)| (a.0@, area_rect(g, a.1@)))
}

/// The areas of all groups, group after group.
pub open spec fn sheet_entries(groups: Seq<(String, SpritesheetGroup)>) -> Seq<
    (Seq<char>, Option<(Point, Size)>),
>
    decreases groups.len(),
{
    if groups.len() == 0 {
        Seq::empty()
    } else {
        sheet_entries(groups.drop_last()) + group_entries(groups.last().1)
    }
}

/// The exclusive bound that a coordinate must stay below for an image side
/// of `side` pixels: the side plus one, as an `i32` that wraps around.
pub open spec fn image_bound(side: u32) -> i32 {
    if side as i32 == i32::MAX {
        i32::MIN
    } else {
        (side as i32 + 1) as i32
    }
}

/// The rectangle at `p` of size `s` has both corners inside the image.
pub open spec fn rect_in_image(p: Point, s: Size, dims: (u32, u32)) -> bool {
    let bw = image_bound(dims.0);
    let bh = image_bound(dims.1);
    &&& 0 <= p.x < bw
    &&& 0 <= p.y < bh
    &&& 0 <= p.x + s.width < bw
    &&& 0 <= p.y + s.height < bh
}

/// The sprites laid out from `entries` in turn: an entry becomes a sprite
/// when it has a rectangle, its id is not taken yet, and the rectangle lies
/// inside the image; every other entry is passed over.
pub open spec fn place_sprites(
    entries: Seq<(Seq<char>, Option<(Point, Size)>)>,
    sheet_id: String,
    dims: (u32, u32),
) -> Map<Seq<char>, Sprite>
    decreases entries.len(),
{
    if entries.len() == 0 {
        Map::empty()
    } else {
        let m = place_sprites(entries.drop_last(), sheet_id, dims);
        let (k, r) = entries.last();
        match r {
            Some((p, s)) => if !m.contains_key(k) && rect_in_image(p, s, dims) {
                m.insert(k, Sprite { id: sheet_id, position: p, size: s })
            } else {
                m
            },
            None => m,
        }
    }
}

impl Sprite {
    /// The sprite of sheet `id` at `position` with `size`.
    pub fn new(id: &String, position: Point, size: Size) -> (s: Sprite)
        ensures
            s == (Sprite { id: *id, position, size }),
    {
        Sprite { id: id.clone(), position, size }
    }
}

impl SpritesheetGroup {
    pub fn get_size(&self) -> (s: Size)
        ensures
            s == base_size(*self),
    {
        match self.size {
            Some(s) => s,
            None => Size::as_zero(),
        }
    }

    pub fn get_position(&self) -> (p: Point)
        ensures
            p == base_position(*self),
    {
        match self.position {
            Some(p) => p,
            None => Point::as_zero(),
        }
    }
}

/// The exclusive coordinate bound for an image side, as `image_bound` says.
fn side_bound(side: u32) -> (b: i32)
    ensures
        b == image_bound(side),
{
    let s = side as i32;
    if s == i32::MAX {
        i32::MIN
    } else {
        s + 1
    }
}

impl Spritesheet {
    /// Lays out the sprites of `builder` on `image`.
    pub fn new(builder: SpritesheetBuilder, image: &DynamicImage) -> (sheet: Rc<Spritesheet>)
        requires
            builder.fits(),
        ensures
            sheet.id == builder.id,
            sheet.image == rgba_copy(*image),
            sheet.sprites.wf(),
            sheet.sprites@ == place_sprites(
                sheet_entries(builder.groups@),
                builder.id,
                rgba_dimensions(rgba_copy(*image)),
            ).map_values(|s: Sprite| Rc::new(s)),
    {
        let rgba = to_rgba(image);
        let (image_width, image_height) = rgba_image_dimensions(&rgba);
        let ghost dims = (image_width, image_height);
        let bound_w = side_bound(image_width);
        let bound_h = side_bound(image_height);
        let ghost groups = builder.groups@;

        let mut sprites: ResourceMap<Rc<Sprite>> = ResourceMap::new();
        let n_groups = builder.groups.len();
        let mut gi: usize = 0;
        while gi < n_groups
            invariant
                n_groups == groups.len(),
                groups == builder.groups@,
                builder.fits(),
                gi <= n_groups,
                bound_w == image_bound(dims.0),
                bound_h == image_bound(dims.1),
                sprites.wf(),
                sprites@ == place_sprites(sheet_entries(groups.take(gi as int)), builder.id, dims)
                    .map_values(|s: Sprite| Rc::new(s)),
            decreases n_groups - gi,
        {
            let group = &builder.groups[gi].1;
            assert(group_fits(*group));
            let group_size = group.get_size();
            let group_pos = group.get_position();
            let ghost done = sheet_entries(groups.take(gi as int));
            let n_areas = group.areas.len();
            let mut ai: usize = 0;
            while ai < n_areas
                invariant
                    n_areas == group.areas@.len(),
                    group_fits(*group),
                    group_size == base_size(*group),
                    group_pos == base_position(*group),
                    ai <= n_areas,
                    bound_w == image_bound(dims.0),
                    bound_h == image_bound(dims.1),
                    sprites.wf(),
                    sprites@ == place_sprites(
                        done + group_entries(*group).take(ai as int),
                        builder.id,
                        dims,
                    ).map_values(|s: Sprite| Rc::new(s)),
                decreases n_areas - ai,
            {
                let id = &group.areas[ai].0;
                let area = &group.areas[ai].1;
                let ghost entries = done + group_entries(*group).take(ai as int);
                proof {
                    assert(area_fits(*group, area@));
                    assert((done + group_entries(*group).take(ai + 1)).drop_last() =~= entries);
                    assert((done + group_entries(*group).take(ai + 1)).last() == (
                        id@,
                        area_rect(*group, area@),
                    ));
                }
                if area.len() == 2 || area.len() == 4 {
                    let pos = group_pos.add(area[0], area[1]);
                    let size = if area.len() == 2 {
                        group_size
                    } else {
                        group_size.add(area[2], area[3])
                    };
                    let sprite = Sprite::new(&builder.id, pos, size);
                    if !sprites.contains_key(id) {
                        let upper = sprite.position.add(sprite.size.width, sprite.size.height);
                        if sprite.position.in_bounds(bound_w, bound_h) && upper.in_bounds(
                            bound_w,
                            bound_h,
                        ) {
                            let ghost before = sprites@;
                            sprites.insert_new(id.clone(), Rc::new(sprite));
                            proof {
                                assert(sprites@ =~= place_sprites(
                                    done + group_entries(*group).take(ai + 1),
                                    builder.id,
                                    dims,
                                ).map_values(|s: Sprite| Rc::new(s)));
                            }
                        }
                    }
                }
                ai = ai + 1;
            }
            proof {
                assert(group_entries(*group).take(n_areas as int) =~= group_entries(*group));
                assert(groups.take(gi + 1).drop_last() =~= groups.take(gi as int));
                assert(groups.take(gi + 1).last() == groups[gi as int]);
            }
            gi = gi + 1;
        }
        proof {
            assert(groups.take(n_groups as int) =~= groups);
        }
        Rc::new(Spritesheet { id: builder.id, image: rgba, sprites })
    }
}

/// Every sprite that is laid out lies inside the image, with both corners,
/// and carries the id of its sheet.
pub proof fn lemma_sprites_inside_image(
    entries: Seq<(Seq<char>, Option<(Point, Size)>)>,
    sheet_id: String,
    dims: (u32, u32),
    k: Seq<char>,
)
    requires
        place_sprites(entries, sheet_id, dims).contains_key(k),
    ensures
        rect_in_image(
            place_sprites(entries, sheet_id, dims)[k].position,
            place_sprites(entries, sheet_id, dims)[k].size,
            dims,
        ),
        place_sprites(entries, sheet_id, dims)[k].id == sheet_id,
    decreases entries.len(),
{
    if entries.len() > 0 {
        let m = place_sprites(entries.drop_last(), sheet_id, dims);
        if m.contains_key(k) {
            lemma_sprites_inside_image(entries.drop_last(), sheet_id, dims, k);
        }
    }
}

/// An entry whose id was laid out before keeps the sprite it had: of two
/// areas with one id, the first that fits the image wins.
pub proof fn lemma_sprite_kept(
    entries: Seq<(Seq<char>, Option<(Point, Size)>)>,
    later: Seq<(Seq<char>, Option<(Point, Size)>)>,
    sheet_id: String,
    dims: (u32, u32),
    k: Seq<char>,
)
    requires
        place_sprites(entries, sheet_id, dims).contains_key(k),
    ensures
        place_sprites(entries + later, sheet_id, dims).contains_key(k),
        place_sprites(entries + later, sheet_id, dims)[k] == place_sprites(entries, sheet_id, dims)[k],
    decreases later.len(),
{
    if later.len() > 0 {
        assert((entries + later).drop_last() =~= entries + later.drop_last());
        lemma_sprite_kept(entries, later.drop_last(), sheet_id, dims, k);
    } else {
        assert(entries + later =~= entries);
    }
}

/// Both corners of the rectangle at `p` of size `s` lie on the image of
/// `width` by `height` pixels, edges included: `0 <= x <= width` and
/// `0 <= y <= height` for its position and for its position plus its size.
pub open spec fn corners_on_image(p: Point, s: Size, width: u32, height: u32) -> bool {
    &&& 0 <= p.x <= width
    &&& 0 <= p.y <= height
    &&& 0 <= p.x + s.width <= width
    &&& 0 <= p.y + s.height <= height
}

/// An entry that becomes a sprite unless its id is taken: it has a
/// rectangle, and the rectangle's corners lie on the image.
pub open spec fn entry_fits_image(
    e: (Seq<char>, Option<(Point, Size)>),
    width: u32,
    height: u32,
) -> bool {
    e.1 matches Some((p, s)) && corners_on_image(p, s, width, height)
}

proof fn lemma_rect_in_image_is_corners_on_image(p: Point, s: Size, dims: (u32, u32))
    requires
        dims.0 < i32::MAX,
        dims.1 < i32::MAX,
    ensures
        rect_in_image(p, s, dims) == corners_on_image(p, s, dims.0, dims.1),
{
    assert(dims.0 as i32 == dims.0);
    assert(dims.1 as i32 == dims.1);
}

/// Where an id has no entry that fits the image, no sprite has that id.
pub proof fn lemma_sprite_absent(
    entries: Seq<(Seq<char>, Option<(Point, Size)>)>,
    sheet_id: String,
    dims: (u32, u32),
    k: Seq<char>,
)
    requires
        dims.0 < i32::MAX,
        dims.1 < i32::MAX,
        forall|j: int|
            0 <= j < entries.len() && #[trigger] entries[j].0 == k ==> !entry_fits_image(
                entries[j],
                dims.0,
                dims.1,
            ),
    ensures
        !place_sprites(entries, sheet_id, dims).contains_key(k),
    decreases entries.len(),
{
    if entries.len() > 0 {
        let front = entries.drop_last();
        assert forall|j: int| 0 <= j < front.len() && #[trigger] front[j].0 == k implies !entry_fits_image(
            front[j],
            dims.0,
            dims.1,
        ) by {
            assert(entries[j] == front[j]);
        }
        lemma_sprite_absent(front, sheet_id, dims, k);
        let last = entries[entries.len() - 1];
        if let Some((p, s)) = last.1 {
            lemma_rect_in_image_is_corners_on_image(p, s, dims);
        }
    }
}

/// The sprite of an id comes from the first entry with that id whose
/// rectangle has both corners on the image (x bounded by the width, y by the
/// height, edges included): it is laid out with that entry's position and
/// size, and carries the sheet's id.
pub proof fn lemma_sprite_from_first_fitting_entry(
    entries: Seq<(Seq<char>, Option<(Point, Size)>)>,
    sheet_id: String,
    dims: (u32, u32),
    i: int,
)
    requires
        dims.0 < i32::MAX,
        dims.1 < i32::MAX,
        0 <= i < entries.len(),
        entry_fits_image(entries[i], dims.0, dims.1),
        forall|j: int|
            0 <= j < i && #[trigger] entries[j].0 == entries[i].0 ==> !entry_fits_image(
                entries[j],
                dims.0,
                dims.1,
            ),
    ensures
        place_sprites(entries, sheet_id, dims).contains_key(entries[i].0),
        entries[i].1 matches Some((p, s)) && place_sprites(entries, sheet_id, dims)[entries[i].0] == (
        Sprite { id: sheet_id, position: p, size: s }),
    decreases entries.len(),
{
    let k = entries[i].0;
    let front = entries.drop_last();
    let n = entries.len();
    if i == n - 1 {
        assert forall|j: int| 0 <= j < front.len() && #[trigger] front[j].0 == k implies !entry_fits_image(
            front[j],
            dims.0,
            dims.1,
        ) by {
            assert(entries[j] == front[j]);
        }
        lemma_sprite_absent(front, sheet_id, dims, k);
        if let Some((p, s)) = entries[i].1 {
            lemma_rect_in_image_is_corners_on_image(p, s, dims);
        }
    } else {
        assert(front[i] == entries[i]);
        assert forall|j: int| 0 <= j < i && #[trigger] front[j].0 == front[i].0 implies !entry_fits_image(
            front[j],
            dims.0,
            dims.1,
        ) by {
            assert(entries[j] == front[j]);
        }
        lemma_sprite_from_first_fitting_entry(front, sheet_id, dims, i);
    }
}

/// An area `[x, y]` places its sprite at the group's position (the origin
/// when it has none) moved by `(x, y)`, with the group's size (zero when it
/// has none); `[x, y, w, h]` also grows that size by `(w, h)`; any other area
/// places nothing.
pub proof fn lemma_area_placement(g: SpritesheetGroup, area: Seq<i32>)
    requires
        area_fits(g, area),
    ensures
        ({
            let (px, py) = match g.position {
                Some(p) => (p.x as int, p.y as int),
                None => (0, 0),
            };
            let (sw, sh) = match g.size {
                Some(s) => (s.width as int, s.height as int),
                None => (0, 0),
            };
            &&& area.len() == 2 ==> (area_rect(g, area) matches Some((p, s)) && p.x == px + area[0]
                && p.y == py + area[1] && s.width == sw && s.height == sh)
            &&& area.len() == 4 ==> (area_rect(g, area) matches Some((p, s)) && p.x == px + area[0]
                && p.y == py + area[1] && s.width == sw + area[2] && s.height == sh + area[3])
            &&& area.len() != 2 && area.len() != 4 ==> area_rect(g, area) is None
        }),
{
}

/// The entries of a group are its areas, in order, each with its id.
pub proof fn lemma_group_entries(g: SpritesheetGroup, a: int)
    requires
        0 <= a < g.areas@.len(),
    ensures
        group_entries(g).len() == g.areas@.len(),
        group_entries(g)[a] == (g.areas@[a].0@, area_rect(g, g.areas@[a].1@)),
{
}

} // verus!
