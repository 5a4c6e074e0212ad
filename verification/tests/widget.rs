use sulis::ui::scrollbar::{ScrollButton, Scrollbar};
use sulis::ui::widget::{update_children_recursive, Widget, WidgetState};
use sulis::ui::widget_kind::{EmptyWidget, WidgetKind};
use sulis::util::{Point, Size};

fn leaf(x: i32, y: i32, height: i32) -> Widget {
    node(x, y, height, vec![])
}

fn node(x: i32, y: i32, height: i32, children: Vec<Widget>) -> Widget {
    Widget {
        state: WidgetState {
            position: Point::new(x, y),
            size: Size::new(4, height),
            inner_size: Size::new(4, height),
            mouse_inside: false,
        },
        children,
    }
}

fn ys(w: &Widget) -> Vec<i32> {
    let mut out = vec![w.state.position.y];
    for c in &w.children {
        out.extend(ys(c));
    }
    out
}

#[test]
fn update_children_recursive_moves_descendants_only() {
    let mut w = node(0, 100, 10, vec![leaf(1, 2, 1), node(3, 4, 1, vec![leaf(5, 6, 1)])]);
    update_children_recursive(&mut w, -3);
    assert_eq!(ys(&w), vec![100, -1, 1, 3]);
    assert_eq!(w.children[1].children[0].state.position.x, 5);
    update_children_recursive(&mut w, 3);
    assert_eq!(ys(&w), vec![100, 2, 4, 6]);
}

#[test]
fn empty_widget_kind_defaults() {
    let kind = EmptyWidget {};
    assert_eq!(kind.get_name(), "Empty");
    let mut w = leaf(0, 0, 1);
    let mut state = 5u8;
    assert!(!kind.on_mouse_enter(&mut state, &mut w, Point::new(0, 0)));
    assert!(w.state.mouse_inside);
    assert!(!kind.on_mouse_click(&mut state, &mut w, 1u8, Point::new(0, 0)));
    assert!(!kind.on_mouse_move(&mut state, &mut w, Point::new(1, 1)));
    assert!(!kind.on_mouse_scroll(&mut state, &mut w, 3, Point::new(1, 1)));
    assert!(!kind.on_key_press(&mut state, &mut w, 'k', Point::new(1, 1)));
    assert!(w.state.mouse_inside);
    assert!(!kind.on_mouse_exit(&mut state, &mut w, Point::new(0, 0)));
    assert!(!w.state.mouse_inside);
    assert_eq!(state, 5);
    let mut ws = leaf(1, 1, 1).state;
    kind.on_add(&mut ws);
    kind.draw_text_mode(&mut (), &w);
}

#[test]
fn scrollbar_starts_at_zero() {
    let s = Scrollbar::new();
    assert_eq!((s.delta(), s.min_y(), s.cur_y(), s.max_y()), (1, 0, 0, 0));
    assert_eq!(s.get_name(), "scrollbar");
}

#[test]
fn scrollbar_range_from_children() {
    let mut s = Scrollbar::new();
    let w = node(0, 0, 10, vec![leaf(0, 0, 5), leaf(0, 8, 10)]);
    s.compute_min_max_y(&w);
    // The lowest child reaches 18; 10 of that is shown.
    assert_eq!(s.max_y(), 8);
    let short = node(0, 0, 10, vec![leaf(0, 0, 5)]);
    s.compute_min_max_y(&short);
    assert_eq!(s.max_y(), 0);
}

#[test]
fn scrollbar_steps_are_clamped_and_move_children() {
    let mut s = Scrollbar::new();
    let mut w = node(0, 0, 10, vec![leaf(0, 0, 5), node(0, 8, 10, vec![leaf(0, 9, 1)])]);

    s.update_children_position(&mut w, -1);
    assert_eq!(s.cur_y(), 0);
    assert_eq!(ys(&w), vec![0, 0, 8, 9]);

    s.update_children_position(&mut w, 1);
    assert_eq!(s.cur_y(), 1);
    assert_eq!(ys(&w), vec![0, -1, 7, 8]);

    s.layout(Some(5));
    assert_eq!(s.delta(), 5);
    s.layout(None);
    assert_eq!(s.delta(), 5);

    s.on_button(&mut w, ScrollButton::Down);
    assert_eq!(s.cur_y(), 6);
    assert_eq!(ys(&w), vec![0, -6, 2, 3]);

    s.on_button(&mut w, ScrollButton::Down);
    assert_eq!(s.max_y(), 8);
    assert_eq!(s.cur_y(), 8);
    assert_eq!(ys(&w), vec![0, -8, 0, 1]);

    s.on_button(&mut w, ScrollButton::Up);
    assert_eq!(s.cur_y(), 3);
    assert_eq!(ys(&w), vec![0, -3, 5, 6]);
    // Each child's position plus the offset stays what it was at the start.
    assert_eq!(w.children[0].state.position.y + s.cur_y(), 0);
    assert_eq!(w.children[1].state.position.y + s.cur_y(), 8);
}
