//! Widgets of the user interface: the widget tree, the behaviour that every
//! kind of widget shares, and the scrollbar.

pub mod scrollbar;
pub mod widget;
pub mod widget_kind;
