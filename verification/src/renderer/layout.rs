//! Styles, the layout tree, and painting.

pub mod computed_style;
pub mod laws;
pub mod layout_object;
pub mod layout_view;
