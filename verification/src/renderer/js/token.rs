//! The start of a lexer for scripts: it holds the characters of a script
//! and a position in them.

use crate::utils::chars_of;
use vstd::prelude::*;

verus! {

/// What a [`JsLexer`] holds.
pub struct JsLexerView {
    pub pos: int,
    pub input: Seq<char>,
}

pub struct JsLexer {
    pos: usize,
    input: Vec<char>,
}

impl View for JsLexer {
    type V = JsLexerView;

    closed spec fn view(&self) -> JsLexerView {
        JsLexerView { pos: self.pos as int, input: self.input@ }
    }
}

impl JsLexer {
    /// A lexer at the start of `js`.
    pub fn new(js: String) -> (l: Self)
        ensures
            l@ == (JsLexerView { pos: 0, input: js@ }),
    {
        Self { pos: 0, input: chars_of(js.as_str()) }
    }
}

#[derive(Debug, Clone, Copy, PartialEq, Eq, Structural)]
pub enum Token {
    Punctuator(char),
    Number(u64),
}

} // verus!
