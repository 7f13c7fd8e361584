//! Rendering core of a small web browser: HTML and CSS tokenizers, a CSS
//! parser, a DOM tree, and a layout tree that is sized, positioned and
//! painted into a flat display list.

pub mod constants;
pub mod display_item;
pub mod error;
pub mod renderer;
pub mod utils;
