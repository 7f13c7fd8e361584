//! HTML: tokens, the tokenizer, and the tree builder.

pub mod attribute;
pub mod laws;
pub mod parser;
pub mod token;
