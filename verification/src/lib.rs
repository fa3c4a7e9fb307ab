//! A toolkit of widgets that are kept in a tree: windows, labels and screens
//! with layout, themes, focus and the routing of input events. The tree
//! works out where everything goes and what is to be painted; a host paints
//! it and feeds it the input.

pub mod common;
pub mod draw;
pub mod events;
pub mod hover;
pub mod inherit;
pub mod label;
pub mod layout;
pub mod placement;
pub mod screen;
pub mod theme;
pub mod tree;
pub mod widget;
pub mod widget_container;
pub mod window;
