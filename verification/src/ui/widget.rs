use vstd::prelude::*;

use crate::util::{fits_i32, Point, Size};

verus! {

/// The state that every widget has, whatever its kind.
pub struct WidgetState {
    pub position: Point,
    pub size: Size,
    /// The size inside the widget's border, where its children are laid out.
    pub inner_size: Size,
    pub mouse_inside: bool,
}

impl WidgetState {
    pub fn set_position(&mut self, x: i32, y: i32)
        ensures
            final(self).position == (Point { x, y }),
            final(self).size == old(self).size,
            final(self).inner_size == old(self).inner_size,
            final(self).mouse_inside == old(self).mouse_inside,
    {
        self.position = Point::new(x, y);
    }

    pub fn set_mouse_inside(&mut self, mouse_inside: bool)
        ensures
            final(self).mouse_inside == mouse_inside,
            final(self).position == old(self).position,
            final(self).size == old(self).size,
            final(self).inner_size == old(self).inner_size,
    {
        self.mouse_inside = mouse_inside;
    }
}

/// A widget with the widgets inside it.
pub struct Widget {
    pub state: WidgetState,
    pub children: Vec<Widget>,
}

/// `b` is `a` with every descendant moved down by `d`, and, when `self_too`,
/// `a` itself moved as well; nothing else differs.
pub open spec fn shifted(a: Widget, b: Widget, d: int, self_too: bool) -> bool
    decreases a,
{
    &&& b.state.position.x == a.state.position.x
    &&& b.state.position.y == a.state.position.y + if self_too { d } else { 0 }
    &&& b.state.size == a.state.size
    &&& b.state.inner_size == a.state.inner_size
    &&& b.state.mouse_inside == a.state.mouse_inside
    &&& all_shifted(a.children@, b.children@, d)
}

/// Each widget of `ys` is the one of `xs` at the same place, moved down by
/// `d` with all its descendants.
pub open spec fn all_shifted(xs: Seq<Widget>, ys: Seq<Widget>, d: int) -> bool
    decreases xs,
{
    &&& xs.len() == ys.len()
    &&& xs.len() > 0 ==> all_shifted(xs.drop_last(), ys.drop_last(), d) && shifted(
        xs.last(),
        ys.last(),
        d,
        true,
    )
}

/// Moving every descendant of `a` (and `a` itself when `self_too`) by `d`
/// keeps each `y` in the range of `i32`.
pub open spec fn shift_fits(a: Widget, d: int, self_too: bool) -> bool
    decreases a,
{
    &&& self_too ==> fits_i32(a.state.position.y + d)
    &&& all_shift_fits(a.children@, d)
}

pub open spec fn all_shift_fits(xs: Seq<Widget>, d: int) -> bool
    decreases xs,
{
    xs.len() > 0 ==> all_shift_fits(xs.drop_last(), d) && shift_fits(xs.last(), d, true)
}

pub proof fn lemma_all_shifted(xs: Seq<Widget>, ys: Seq<Widget>, d: int)
    ensures
        all_shifted(xs, ys, d) <==> (xs.len() == ys.len() && forall|i: int|
            0 <= i < xs.len() ==> #[trigger] shifted(xs[i], ys[i], d, true)),
    decreases xs.len(),
{
    if xs.len() > 0 && xs.len() == ys.len() {
        lemma_all_shifted(xs.drop_last(), ys.drop_last(), d);
        if forall|i: int| 0 <= i < xs.len() ==> #[trigger] shifted(xs[i], ys[i], d, true) {
            assert forall|i: int| 0 <= i < xs.drop_last().len() implies #[trigger] shifted(
                xs.drop_last()[i],
                ys.drop_last()[i],
                d,
                true,
            ) by {
                assert(shifted(xs[i], ys[i], d, true));
            }
            assert(shifted(xs[xs.len() - 1], ys[ys.len() - 1], d, true));
        }
        if all_shifted(xs, ys, d) {
            assert forall|i: int| 0 <= i < xs.len() implies #[trigger] shifted(xs[i], ys[i], d, true) by {
                if i < xs.len() - 1 {
                    assert(shifted(xs.drop_last()[i], ys.drop_last()[i], d, true));
                }
            }
        }
    }
}

pub proof fn lemma_all_shift_fits(xs: Seq<Widget>, d: int)
    ensures
        all_shift_fits(xs, d) <==> forall|i: int| 0 <= i < xs.len() ==> #[trigger] shift_fits(xs[i], d, true),
    decreases xs.len(),
{
    if xs.len() > 0 {
        lemma_all_shift_fits(xs.drop_last(), d);
        if forall|i: int| 0 <= i < xs.len() ==> #[trigger] shift_fits(xs[i], d, true) {
            assert forall|i: int| 0 <= i < xs.drop_last().len() implies #[trigger] shift_fits(
                xs.drop_last()[i],
                d,
                true,
            ) by {
                assert(shift_fits(xs[i], d, true));
            }
            assert(shift_fits(xs[xs.len() - 1], d, true));
        }
        if all_shift_fits(xs, d) {
            assert forall|i: int| 0 <= i < xs.len() implies #[trigger] shift_fits(xs[i], d, true) by {
                if i < xs.len() - 1 {
                    assert(shift_fits(xs.drop_last()[i], d, true));
                }
            }
        }
    }
}

/// Moves every descendant of `parent`, but not `parent` itself, down by `delta`.
pub fn update_children_recursive(parent: &mut Widget, delta: i32)
    requires
        shift_fits(*old(parent), delta as int, false),
    ensures
        shifted(*old(parent), *final(parent), delta as int, false),
    decreases *old(parent),
{
    let ghost old_parent = *parent;
    let len = parent.children.len();
    let mut i: usize = 0;
    while i < len
        invariant
            old_parent == *old(parent),
            shift_fits(old_parent, delta as int, false),
            parent.children@.len() == len,
            len == old_parent.children@.len(),
            i <= len,
            parent.state == old_parent.state,
            forall|j: int|
                0 <= j < i ==> #[trigger] shifted(
                    old_parent.children@[j],
                    parent.children@[j],
                    delta as int,
                    true,
                ),
            forall|j: int| i <= j < len ==> #[trigger] parent.children@[j] == old_parent.children@[j],
        decreases len - i,
    {
        proof {
            lemma_all_shift_fits(old_parent.children@, delta as int);
            assert(shift_fits(old_parent.children@[i as int], delta as int, true));
            assert(decreases_to!(old_parent => old_parent.children@[i as int]));
        }
        let child = &mut parent.children[i];
        update_children_recursive(child, delta);
        let cur_x = child.state.position.x;
        let cur_y = child.state.position.y;
        child.state.set_position(cur_x, cur_y + delta);
        i = i + 1;
    }
    proof {
        lemma_all_shifted(old_parent.children@, parent.children@, delta as int);
    }
}

/// Moving a widget tree by `d1` and then by `d2` moves it by `d1 + d2`; in
/// particular, moving by `d` and then by `-d` gives back the tree as it was.
pub proof fn lemma_shift_compose(a: Widget, b: Widget, c: Widget, d1: int, d2: int, self_too: bool)
    requires
        shifted(a, b, d1, self_too),
        shifted(b, c, d2, self_too),
    ensures
        shifted(a, c, d1 + d2, self_too),
    decreases a,
{
    lemma_all_shift_compose(a.children@, b.children@, c.children@, d1, d2);
}

proof fn lemma_all_shift_compose(xs: Seq<Widget>, ys: Seq<Widget>, zs: Seq<Widget>, d1: int, d2: int)
    requires
        all_shifted(xs, ys, d1),
        all_shifted(ys, zs, d2),
    ensures
        all_shifted(xs, zs, d1 + d2),
    decreases xs,
{
    if xs.len() > 0 {
        lemma_all_shift_compose(xs.drop_last(), ys.drop_last(), zs.drop_last(), d1, d2);
        lemma_shift_compose(xs.last(), ys.last(), zs.last(), d1, d2, true);
    }
}

/// Shifting moves the widget (when `self_too`) and each of its children down
/// by `d` and keeps their `x`, sizes and count.
pub proof fn lemma_shifted_children(a: Widget, b: Widget, d: int, self_too: bool)
    requires
        shifted(a, b, d, self_too),
    ensures
        b.state.position.x == a.state.position.x,
        b.state.position.y == a.state.position.y + if self_too { d } else { 0 },
        b.state.size == a.state.size,
        b.children@.len() == a.children@.len(),
        forall|i: int|
            0 <= i < a.children@.len() ==> #[trigger] b.children@[i].state.position.y
                == a.children@[i].state.position.y + d && b.children@[i].state.position.x
                == a.children@[i].state.position.x && b.children@[i].state.size
                == a.children@[i].state.size,
{
    lemma_all_shifted(a.children@, b.children@, d);
    assert forall|i: int| 0 <= i < a.children@.len() implies #[trigger] b.children@[i].state.position.y
        == a.children@[i].state.position.y + d && b.children@[i].state.position.x
        == a.children@[i].state.position.x && b.children@[i].state.size
        == a.children@[i].state.size by {
        assert(shifted(a.children@[i], b.children@[i], d, true));
    }
}

} // verus!
