//! The document tree.

pub mod api;
pub mod laws;
pub mod node;
