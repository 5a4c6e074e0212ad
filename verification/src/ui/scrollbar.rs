use vstd::prelude::*;

use crate::ui::widget::{lemma_all_shifted, shift_fits, shifted, update_children_recursive, Widget};
use crate::util::fits_i32;

verus! {

/// The name of the scrollbar widget kind.
pub const NAME: &'static str = "scrollbar";

/// The lowest point that a child of `cs` reaches (its `y` plus its height),
/// and never less than zero.
pub open spec fn max_bottom(cs: Seq<Widget>) -> int
    decreases cs.len(),
{
    if cs.len() == 0 {
        0
    } else {
        let b = cs.last().state.position.y + cs.last().state.size.height;
        let m = max_bottom(cs.drop_last());
        if m >= b {
            m
        } else {
            b
        }
    }
}

/// Every child's lowest point fits in an `i32`.
pub open spec fn bottoms_fit(cs: Seq<Widget>) -> bool {
    forall|i: int|
        0 <= i < cs.len() ==> fits_i32(
            #[trigger] cs[i].state.position.y + cs[i].state.size.height,
        )
}

/// The two buttons that a scrollbar adds to its widget.
#[derive(Debug, Clone, Copy, PartialEq, Eq, Structural)]
pub enum ScrollButton {
    Up,
    Down,
}

impl ScrollButton {
    /// The direction that the button scrolls in: up is negative.
    pub open spec fn dir(self) -> i32 {
        match self {
            ScrollButton::Up => -1i32,
            ScrollButton::Down => 1i32,
        }
    }
}

/// What a scrollbar holds: how far one step scrolls, and the range and the
/// current value of the scroll offset.
pub struct ScrollbarView {
    pub delta: u32,
    pub min_y: i32,
    pub cur_y: i32,
    pub max_y: i32,
}

/// The scrolling state of a widget whose children can be scrolled up and down.
pub struct Scrollbar {
    delta: u32,
    min_y: i32,
    cur_y: i32,
    max_y: i32,
}

impl View for Scrollbar {
    type V = ScrollbarView;

    closed spec fn view(&self) -> ScrollbarView {
        ScrollbarView { delta: self.delta, min_y: self.min_y, cur_y: self.cur_y, max_y: self.max_y }
    }
}

/// The largest scroll offset for a widget whose children are `cs`, shown
/// inside `inner_height`, when the current offset is `cur_y` and the
/// smallest is `min_y`.
pub open spec fn scroll_max(cs: Seq<Widget>, cur_y: i32, inner_height: i32, min_y: i32) -> int {
    let m = max_bottom(cs) + cur_y - inner_height;
    if m < min_y {
        min_y as int
    } else {
        m
    }
}

/// The sums that computing the scroll range for `w` makes fit in an `i32`.
pub open spec fn range_fits(w: Widget, cur_y: i32) -> bool {
    &&& bottoms_fit(w.children@)
    &&& fits_i32(max_bottom(w.children@) + cur_y)
    &&& fits_i32(max_bottom(w.children@) + cur_y - w.state.inner_size.height)
}

/// The offset that one step in direction `dir` asks for, before clamping.
pub open spec fn step_target(s: ScrollbarView, dir: i32) -> int {
    s.cur_y + dir * (s.delta as i32)
}

/// `v` clamped to `[lo, hi]`, the lower bound tested first.
pub open spec fn clamp(v: int, lo: int, hi: int) -> int {
    if v < lo {
        lo
    } else if v > hi {
        hi
    } else {
        v
    }
}

/// The scroll offset after one step in direction `dir` on widget `w`.
pub open spec fn scrolled_y(s: ScrollbarView, w: Widget, dir: i32) -> int {
    clamp(
        step_target(s, dir),
        s.min_y as int,
        scroll_max(w.children@, s.cur_y, w.state.inner_size.height, s.min_y),
    )
}

/// Whether one step in direction `dir` on `w` computes only sums that fit in
/// an `i32`.
pub open spec fn step_fits(s: ScrollbarView, w: Widget, dir: i32) -> bool {
    &&& range_fits(w, s.cur_y)
    &&& fits_i32(dir * (s.delta as i32))
    &&& fits_i32(step_target(s, dir))
    &&& fits_i32(s.cur_y - scrolled_y(s, w, dir))
    &&& shift_fits(w, s.cur_y - scrolled_y(s, w, dir), false)
}

impl Scrollbar {
    /// A scrollbar at offset zero that scrolls one unit per step.
    pub fn new() -> (s: Scrollbar)
        ensures
            s@ == (ScrollbarView { delta: 1, min_y: 0, cur_y: 0, max_y: 0 }),
    {
        Scrollbar { delta: 1, cur_y: 0, min_y: 0, max_y: 0 }
    }

    pub fn delta(&self) -> (d: u32)
        ensures
            d == self@.delta,
    {
        self.delta
    }

    pub fn min_y(&self) -> (y: i32)
        ensures
            y == self@.min_y,
    {
        self.min_y
    }

    pub fn cur_y(&self) -> (y: i32)
        ensures
            y == self@.cur_y,
    {
        self.cur_y
    }

    pub fn max_y(&self) -> (y: i32)
        ensures
            y == self@.max_y,
    {
        self.max_y
    }

    /// Takes the scroll step from the widget's theme, where the widget has
    /// one: `theme_delta` is the theme's `scroll_delta`, or its default.
    pub fn layout(&mut self, theme_delta: Option<u32>)
        ensures
            final(self)@ == (ScrollbarView {
                delta: match theme_delta {
                    Some(d) => d,
                    None => old(self)@.delta,
                },
                ..old(self)@
            }),
    {
        if let Some(d) = theme_delta {
            self.delta = d;
        }
    }

    /// Sets the largest scroll offset from how far the children of `widget`
    /// reach below its inner area.
    pub fn compute_min_max_y(&mut self, widget: &Widget)
        requires
            range_fits(*widget, old(self)@.cur_y),
        ensures
            final(self)@ == (ScrollbarView {
                max_y: scroll_max(
                    widget.children@,
                    old(self)@.cur_y,
                    widget.state.inner_size.height,
                    old(self)@.min_y,
                ) as i32,
                ..old(self)@
            }),
            final(self)@.min_y <= final(self)@.max_y,
    {
        let mut max_y: i32 = 0;
        let len = widget.children.len();
        let mut i: usize = 0;
        while i < len
            invariant
                len == widget.children@.len(),
                i <= len,
                bottoms_fit(widget.children@),
                max_y == max_bottom(widget.children@.take(i as int)),
            decreases len - i,
        {
            let child = &widget.children[i];
            let bottom = child.state.position.y + child.state.size.height;
            if bottom > max_y {
                max_y = bottom;
            }
            proof {
                assert(widget.children@.take(i + 1).drop_last() =~= widget.children@.take(i as int));
            }
            i = i + 1;
        }
        proof {
            assert(widget.children@.take(len as int) =~= widget.children@);
        }
        self.max_y = max_y + self.cur_y - widget.state.inner_size.height;
        if self.max_y < self.min_y {
            self.max_y = self.min_y;
        }
    }

    /// Scrolls `widget` one step in direction `dir` (negative is up): the
    /// offset moves by `dir` steps, clamped to its range, and every
    /// descendant of `widget` moves by the opposite amount.
    pub fn update_children_position(&mut self, widget: &mut Widget, dir: i32)
        requires
            step_fits(old(self)@, *old(widget), dir),
        ensures
            final(self)@ == (ScrollbarView {
                cur_y: scrolled_y(old(self)@, *old(widget), dir) as i32,
                max_y: scroll_max(
                    old(widget).children@,
                    old(self)@.cur_y,
                    old(widget).state.inner_size.height,
                    old(self)@.min_y,
                ) as i32,
                ..old(self)@
            }),
            final(self)@.min_y <= final(self)@.cur_y <= final(self)@.max_y,
            shifted(*old(widget), *final(widget), old(self)@.cur_y - final(self)@.cur_y, false),
            final(widget).children@.len() == old(widget).children@.len(),
            forall|i: int|
                0 <= i < old(widget).children@.len() ==> #[trigger] final(widget).children@[i].state.position.y
                    + final(self)@.cur_y == old(widget).children@[i].state.position.y + old(self)@.cur_y,
    {
        self.compute_min_max_y(widget);
        let old_y = self.cur_y;
        self.cur_y = self.cur_y + dir * (self.delta as i32);
        if self.cur_y < self.min_y {
            self.cur_y = self.min_y;
        } else if self.cur_y > self.max_y {
            self.cur_y = self.max_y;
        }
        update_children_recursive(widget, old_y - self.cur_y);
        proof {
            let d = old_y - self.cur_y;
            lemma_all_shifted(old(widget).children@, widget.children@, d);
            assert forall|i: int| 0 <= i < old(widget).children@.len() implies #[trigger] widget.children@[i].state.position.y
                + self.cur_y == old(widget).children@[i].state.position.y + old_y by {
                assert(shifted(old(widget).children@[i], widget.children@[i], d, true));
            }
        }
    }

    /// Answers a press of one of the scrollbar's buttons: up scrolls one step
    /// up, down one step down.
    pub fn on_button(&mut self, widget: &mut Widget, button: ScrollButton)
        requires
            step_fits(old(self)@, *old(widget), button.dir()),
        ensures
            final(self)@ == (ScrollbarView {
                cur_y: scrolled_y(old(self)@, *old(widget), button.dir()) as i32,
                max_y: scroll_max(
                    old(widget).children@,
                    old(self)@.cur_y,
                    old(widget).state.inner_size.height,
                    old(self)@.min_y,
                ) as i32,
                ..old(self)@
            }),
            shifted(*old(widget), *final(widget), old(self)@.cur_y - final(self)@.cur_y, false),
    {
        let dir = match button {
            ScrollButton::Up => -1,
            ScrollButton::Down => 1,
        };
        self.update_children_position(widget, dir);
    }
}

/// How far the children reach: no child's bottom (`y` plus height) lies
/// below it, it is never negative, and it is zero or the bottom of some child.
pub proof fn lemma_max_bottom(cs: Seq<Widget>)
    ensures
        max_bottom(cs) >= 0,
        forall|i: int|
            0 <= i < cs.len() ==> #[trigger] cs[i].state.position.y + cs[i].state.size.height
                <= max_bottom(cs),
        max_bottom(cs) == 0 || exists|i: int|
            0 <= i < cs.len() && max_bottom(cs) == #[trigger] cs[i].state.position.y
                + cs[i].state.size.height,
    decreases cs.len(),
{
    if cs.len() > 0 {
        let front = cs.drop_last();
        lemma_max_bottom(front);
        let n = cs.len();
        assert forall|i: int|
            0 <= i < cs.len() implies #[trigger] cs[i].state.position.y + cs[i].state.size.height
            <= max_bottom(cs) by {
            if i < n - 1 {
                assert(front[i] == cs[i]);
            }
        }
        if max_bottom(cs) != 0 {
            if max_bottom(cs) == max_bottom(front) {
                let i = choose|i: int|
                    0 <= i < front.len() && max_bottom(front) == #[trigger] front[i].state.position.y
                        + front[i].state.size.height;
                assert(front[i] == cs[i]);
            } else {
                assert(max_bottom(cs) == cs[n - 1].state.position.y + cs[n - 1].state.size.height);
            }
        }
    }
}

/// The largest offset is the larger of the smallest offset and how far the
/// children reach below the inner area, counted from the current offset.
pub proof fn lemma_scroll_max(cs: Seq<Widget>, cur_y: i32, inner_height: i32, min_y: i32)
    ensures
        scroll_max(cs, cur_y, inner_height, min_y) >= min_y,
        scroll_max(cs, cur_y, inner_height, min_y) >= max_bottom(cs) + cur_y - inner_height,
        scroll_max(cs, cur_y, inner_height, min_y) == min_y || scroll_max(
            cs,
            cur_y,
            inner_height,
            min_y,
        ) == max_bottom(cs) + cur_y - inner_height,
{
}

/// After a step, the offset is the allowed offset (between the smallest and
/// the largest) that is nearest to the current offset moved by `dir` steps of
/// `delta`.
pub proof fn lemma_step_is_nearest_allowed(s: ScrollbarView, w: Widget, dir: i32)
    ensures
        ({
            let lo = s.min_y as int;
            let hi = scroll_max(w.children@, s.cur_y, w.state.inner_size.height, s.min_y);
            let target = s.cur_y + dir * (s.delta as i32);
            let r = scrolled_y(s, w, dir);
            &&& lo <= r <= hi
            &&& forall|v: int|
                lo <= v <= hi ==> #[trigger] abs_diff(r, target) <= abs_diff(v, target)
        }),
{
    lemma_scroll_max(w.children@, s.cur_y, w.state.inner_size.height, s.min_y);
}

/// The distance between `a` and `b`.
pub open spec fn abs_diff(a: int, b: int) -> int {
    if a >= b {
        a - b
    } else {
        b - a
    }
}

} // verus!
