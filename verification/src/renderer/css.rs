//! Style sheets: tokens, the tokenizer, and the parser.

pub mod cssom;
pub mod laws;
pub mod token;
