//! Scripts. Their text is kept; nothing runs it.

pub mod token;
