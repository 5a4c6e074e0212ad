use vstd::prelude::*;

use crate::ui::scrollbar::{Scrollbar, NAME};
use crate::ui::widget::{Widget, WidgetState};
use crate::util::Point;

verus! {

/// The kind of widget that draws and handles nothing of its own.
pub struct EmptyWidget {}

/// `b` is `a` with only the mouse-inside flag set to `inside`.
pub open spec fn with_mouse_inside(a: Widget, b: Widget, inside: bool) -> bool {
    &&& b.state.mouse_inside == inside
    &&& b.state.position == a.state.position
    &&& b.state.size == a.state.size
    &&& b.state.inner_size == a.state.inner_size
    &&& b.children == a.children
}

/// The behaviour of a kind of widget. A [`Widget`] holds the state that all
/// widgets share; its kind decides how it draws itself and answers events.
/// An event handler returns whether it handled the event. The handlers given
/// here handle nothing; `on_mouse_enter` and `on_mouse_exit` track whether the
/// mouse is inside the widget.
pub trait WidgetKind {
    fn super_draw_text_mode(&self, _widget: &Widget) {
    }

    fn draw_text_mode<R>(&self, _renderer: &mut R, widget: &Widget)
        default_ensures
            *final(_renderer) == *old(_renderer),
    {
        self.super_draw_text_mode(widget);
    }

    fn get_name(&self) -> &str;

    fn on_add(&self, _widget_state: &mut WidgetState)
        default_ensures
            *final(_widget_state) == *old(_widget_state),
    {
    }

    fn on_mouse_click<S, C>(&self, _state: &mut S, _widget: &mut Widget, _kind: C, _mouse_pos: Point) -> (handled: bool)
        default_ensures
            !handled,
            *final(_state) == *old(_state),
            *final(_widget) == *old(_widget),
    {
        false
    }

    fn on_mouse_move<S>(&self, _state: &mut S, _widget: &mut Widget, _mouse_pos: Point) -> (handled: bool)
        default_ensures
            !handled,
            *final(_state) == *old(_state),
            *final(_widget) == *old(_widget),
    {
        false
    }

    fn on_mouse_enter<S>(&self, _state: &mut S, widget: &mut Widget, _mouse_pos: Point) -> (handled: bool)
        default_ensures
            !handled,
            *final(_state) == *old(_state),
            with_mouse_inside(*old(widget), *final(widget), true),
    {
        self.super_on_mouse_enter(widget);
        false
    }

    fn on_mouse_exit<S>(&self, _state: &mut S, widget: &mut Widget, _mouse_pos: Point) -> (handled: bool)
        default_ensures
            !handled,
            *final(_state) == *old(_state),
            with_mouse_inside(*old(widget), *final(widget), false),
    {
        self.super_on_mouse_exit(widget);
        false
    }

    fn on_mouse_scroll<S>(&self, _state: &mut S, _widget: &mut Widget, _scroll: i32, _mouse_pos: Point) -> (handled: bool)
        default_ensures
            !handled,
            *final(_state) == *old(_state),
            *final(_widget) == *old(_widget),
    {
        false
    }

    fn on_key_press<S, K>(&self, _state: &mut S, _widget: &mut Widget, _key: K, _mouse_pos: Point) -> (handled: bool)
        default_ensures
            !handled,
            *final(_state) == *old(_state),
            *final(_widget) == *old(_widget),
    {
        false
    }

    /// Marks the mouse as inside the widget.
    fn super_on_mouse_enter(&self, widget: &mut Widget)
        ensures
            with_mouse_inside(*old(widget), *final(widget), true),
    {
        widget.state.set_mouse_inside(true);
    }

    /// Marks the mouse as outside the widget.
    fn super_on_mouse_exit(&self, widget: &mut Widget)
        ensures
            with_mouse_inside(*old(widget), *final(widget), false),
    {
        widget.state.set_mouse_inside(false);
    }
}

impl WidgetKind for EmptyWidget {
    fn get_name(&self) -> (name: &str)
        ensures
            name@ == "Empty"@,
    {
        "Empty"
    }
}

impl WidgetKind for Scrollbar {
    fn get_name(&self) -> (name: &str)
        ensures
            name@ == NAME@,
    {
        NAME
    }
}

} // verus!
