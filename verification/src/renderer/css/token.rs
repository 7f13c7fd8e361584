//! The CSS tokenizer: a pull-based producer of tokens from the characters
//! of a style sheet.

use crate::utils::char_is_ascii_alpha;
use crate::utils::char_is_ascii_digit;
use crate::utils::chars_of;
use crate::utils::is_ascii_alpha;
use crate::utils::is_ascii_digit;
use crate::utils::string_of_range;
use vstd::prelude::*;

verus! {

/// What a [`CssToken`] holds.
pub enum CssTokenView {
    HashToken(Seq<char>),
    Delim(char),
    Number(Seq<char>),
    Colon,
    SemiColon,
    OpenParenthesis,
    CloseParenthesis,
    OpenCurly,
    CloseCurly,
    Ident(Seq<char>),
    StringToken(Seq<char>),
    AtKeyword(Seq<char>),
}

#[derive(Debug, PartialEq, Eq)]
pub enum CssToken {
    /// `#` and the name that follows it, the `#` included.
    HashToken(String),
    Delim(char),
    /// A run of digits and dots, as written.
    Number(String),
    Colon,
    SemiColon,
    OpenParenthesis,
    CloseParenthesis,
    OpenCurly,
    CloseCurly,
    Ident(String),
    /// What stands between two quotes.
    StringToken(String),
    /// The name after `@`.
    AtKeyword(String),
}

impl View for CssToken {
    type V = CssTokenView;

    open spec fn view(&self) -> CssTokenView {
        match self {
            CssToken::HashToken(s) => CssTokenView::HashToken(s@),
            CssToken::Delim(c) => CssTokenView::Delim(*c),
            CssToken::Number(s) => CssTokenView::Number(s@),
            CssToken::Colon => CssTokenView::Colon,
            CssToken::SemiColon => CssTokenView::SemiColon,
            CssToken::OpenParenthesis => CssTokenView::OpenParenthesis,
            CssToken::CloseParenthesis => CssTokenView::CloseParenthesis,
            CssToken::OpenCurly => CssTokenView::OpenCurly,
            CssToken::CloseCurly => CssTokenView::CloseCurly,
            CssToken::Ident(s) => CssTokenView::Ident(s@),
            CssToken::StringToken(s) => CssTokenView::StringToken(s@),
            CssToken::AtKeyword(s) => CssTokenView::AtKeyword(s@),
        }
    }
}

impl Clone for CssToken {
    fn clone(&self) -> (r: Self)
        ensures
            r@ == self@,
    {
        match self {
            CssToken::HashToken(s) => CssToken::HashToken(s.clone()),
            CssToken::Delim(c) => CssToken::Delim(*c),
            CssToken::Number(s) => CssToken::Number(s.clone()),
            CssToken::Colon => CssToken::Colon,
            CssToken::SemiColon => CssToken::SemiColon,
            CssToken::OpenParenthesis => CssToken::OpenParenthesis,
            CssToken::CloseParenthesis => CssToken::CloseParenthesis,
            CssToken::OpenCurly => CssToken::OpenCurly,
            CssToken::CloseCurly => CssToken::CloseCurly,
            CssToken::Ident(s) => CssToken::Ident(s.clone()),
            CssToken::StringToken(s) => CssToken::StringToken(s.clone()),
            CssToken::AtKeyword(s) => CssToken::AtKeyword(s.clone()),
        }
    }
}

/// The view of a token that may be absent.
pub open spec fn css_token_view(t: Option<CssToken>) -> Option<CssTokenView> {
    match t {
        Some(t) => Some(t@),
        None => None,
    }
}

/// Space, line feed, tab, carriage return and form feed.
pub open spec fn is_css_whitespace(c: char) -> bool {
    c == ' ' || c == '\n' || c == '\t' || c == '\r' || c == '\u{c}'
}

/// A character that may start an identifier.
pub open spec fn is_ident_start(c: char) -> bool {
    is_ascii_alpha(c) || c == '_'
}

/// A character that may continue an identifier.
pub open spec fn is_ident_char(c: char) -> bool {
    is_ascii_alpha(c) || is_ascii_digit(c) || c == '-' || c == '_'
}

/// A character of a number: a digit or a dot.
pub open spec fn is_number_char(c: char) -> bool {
    is_ascii_digit(c) || c == '.'
}

/// The kinds of runs that the tokenizer scans.
#[derive(Clone, Copy, PartialEq, Eq, Structural)]
pub enum Run {
    Whitespace,
    Ident,
    Number,
    /// Everything up to the given quote.
    Quoted(char),
}

/// Whether `c` belongs to a run of kind `run`.
pub open spec fn in_run(run: Run, c: char) -> bool {
    match run {
        Run::Whitespace => is_css_whitespace(c),
        Run::Ident => is_ident_char(c),
        Run::Number => is_number_char(c),
        Run::Quoted(q) => c != q,
    }
}

/// The end of the run of kind `run` that starts at `pos`: the first index
/// from `pos` on whose character is not in the run, or the length of the
/// input.
pub open spec fn run_end(input: Seq<char>, pos: int, run: Run) -> int
    decreases input.len() - pos,
{
    if 0 <= pos < input.len() && in_run(run, input[pos]) {
        run_end(input, pos + 1, run)
    } else {
        pos
    }
}

/// `run_end` is the first index from `pos` on that is outside the run.
pub proof fn lemma_run_end(input: Seq<char>, pos: int, run: Run)
    requires
        0 <= pos <= input.len(),
    ensures
        pos <= run_end(input, pos, run) <= input.len(),
        forall|k: int| pos <= k < run_end(input, pos, run) ==> in_run(run, #[trigger] input[k]),
        run_end(input, pos, run) < input.len() ==> !in_run(
            run,
            input[run_end(input, pos, run)],
        ),
    decreases input.len() - pos,
{
    if pos < input.len() && in_run(run, input[pos]) {
        lemma_run_end(input, pos + 1, run);
    }
}

/// An index that bounds a run from both sides is its end.
pub proof fn lemma_run_end_is(input: Seq<char>, pos: int, run: Run, end: int)
    requires
        0 <= pos <= end <= input.len(),
        forall|k: int| pos <= k < end ==> in_run(run, #[trigger] input[k]),
        end < input.len() ==> !in_run(run, input[end]),
    ensures
        run_end(input, pos, run) == end,
    decreases end - pos,
{
    if pos < end {
        lemma_run_end_is(input, pos + 1, run, end);
    }
}

/// The tokenizer as a mathematical value.
pub struct CssTokenizerView {
    /// How many characters of `input` have been consumed.
    pub pos: int,
    pub input: Seq<char>,
}

/// One pull: the token, if any, and the position after it.
pub struct CssPull {
    pub token: Option<CssTokenView>,
    pub pos: int,
}

/// The token that starts at `pos`, where `pos` holds a character that is
/// no whitespace, and the position after the token.
pub open spec fn token_at(input: Seq<char>, pos: int) -> CssPull
    recommends
        0 <= pos < input.len(),
{
    let c = input[pos];
    if c == '(' {
        CssPull { token: Some(CssTokenView::OpenParenthesis), pos: pos + 1 }
    } else if c == ')' {
        CssPull { token: Some(CssTokenView::CloseParenthesis), pos: pos + 1 }
    } else if c == ':' {
        CssPull { token: Some(CssTokenView::Colon), pos: pos + 1 }
    } else if c == ';' {
        CssPull { token: Some(CssTokenView::SemiColon), pos: pos + 1 }
    } else if c == '{' {
        CssPull { token: Some(CssTokenView::OpenCurly), pos: pos + 1 }
    } else if c == '}' {
        CssPull { token: Some(CssTokenView::CloseCurly), pos: pos + 1 }
    } else if c == '"' || c == '\'' {
        let end = run_end(input, pos + 1, Run::Quoted(c));
        CssPull {
            token: Some(CssTokenView::StringToken(input.subrange(pos + 1, end))),
            pos: if end < input.len() {
                end + 1
            } else {
                end
            },
        }
    } else if is_ascii_digit(c) {
        let end = run_end(input, pos, Run::Number);
        CssPull { token: Some(CssTokenView::Number(input.subrange(pos, end))), pos: end }
    } else if c == '#' {
        let end = run_end(input, pos + 1, Run::Ident);
        CssPull { token: Some(CssTokenView::HashToken(input.subrange(pos, end))), pos: end }
    } else if c == '-' || is_ident_start(c) {
        let end = run_end(input, pos + 1, Run::Ident);
        CssPull { token: Some(CssTokenView::Ident(input.subrange(pos, end))), pos: end }
    } else if c == '@' && pos + 1 < input.len() && is_ident_start(input[pos + 1]) {
        let end = run_end(input, pos + 1, Run::Ident);
        CssPull { token: Some(CssTokenView::AtKeyword(input.subrange(pos + 1, end))), pos: end }
    } else {
        CssPull { token: Some(CssTokenView::Delim(c)), pos: pos + 1 }
    }
}

/// What one call of `next` gives at position `pos`: whitespace is passed
/// over, then comes the token that starts there; nothing at the end of the
/// input.
pub open spec fn css_next(input: Seq<char>, pos: int) -> CssPull {
    if 0 <= pos <= input.len() {
        let start = run_end(input, pos, Run::Whitespace);
        if start < input.len() {
            token_at(input, start)
        } else {
            CssPull { token: None, pos: start }
        }
    } else {
        CssPull { token: None, pos }
    }
}

/// A pull stays inside the input; one that gives a token moves forward.
pub proof fn lemma_css_next_progress(input: Seq<char>, pos: int)
    requires
        0 <= pos <= input.len(),
    ensures
        pos <= css_next(input, pos).pos <= input.len(),
        css_next(input, pos).token is Some ==> pos < css_next(input, pos).pos,
        css_next(input, pos).token is None ==> css_next(input, css_next(input, pos).pos).token
            is None,
{
    lemma_run_end(input, pos, Run::Whitespace);
    let start = run_end(input, pos, Run::Whitespace);
    if start < input.len() {
        let c = input[start];
        lemma_run_end(input, start, Run::Number);
        lemma_run_end(input, start + 1, Run::Ident);
        lemma_run_end(input, start + 1, Run::Quoted(c));
    } else {
        lemma_run_end_is(input, start, Run::Whitespace, start);
    }
}

/// All the tokens from position `pos` to the end of the input.
pub open spec fn css_tokens(input: Seq<char>, pos: int) -> Seq<CssTokenView>
    decreases input.len() - pos,
    via css_tokens_decreases
{
    if 0 <= pos <= input.len() {
        match css_next(input, pos).token {
            Some(t) => seq![t] + css_tokens(input, css_next(input, pos).pos),
            None => Seq::empty(),
        }
    } else {
        Seq::empty()
    }
}

#[via_fn]
proof fn css_tokens_decreases(input: Seq<char>, pos: int) {
    if 0 <= pos <= input.len() {
        lemma_css_next_progress(input, pos);
    }
}

/// There are no more tokens than characters left.
pub proof fn lemma_css_tokens_len(input: Seq<char>, pos: int)
    ensures
        0 <= pos <= input.len() ==> css_tokens(input, pos).len() <= input.len() - pos,
        !(0 <= pos <= input.len()) ==> css_tokens(input, pos).len() == 0,
    decreases input.len() - pos,
{
    if 0 <= pos <= input.len() {
        lemma_css_next_progress(input, pos);
        if css_next(input, pos).token is Some {
            lemma_css_tokens_len(input, css_next(input, pos).pos);
        }
    }
}

pub fn char_is_css_whitespace(c: char) -> (r: bool)
    ensures
        r == is_css_whitespace(c),
{
    c == ' ' || c == '\n' || c == '\t' || c == '\r' || c == '\u{c}'
}

pub fn char_in_run(run: Run, c: char) -> (r: bool)
    ensures
        r == in_run(run, c),
{
    match run {
        Run::Whitespace => char_is_css_whitespace(c),
        Run::Ident => char_is_ascii_alpha(c) || char_is_ascii_digit(c) || c == '-' || c == '_',
        Run::Number => char_is_ascii_digit(c) || c == '.',
        Run::Quoted(q) => c != q,
    }
}

#[derive(Debug, PartialEq, Eq)]
pub struct CssTokenizer {
    pos: usize,
    input: Vec<char>,
}

impl View for CssTokenizer {
    type V = CssTokenizerView;

    closed spec fn view(&self) -> CssTokenizerView {
        CssTokenizerView { pos: self.pos as int, input: self.input@ }
    }
}

impl CssTokenizer {
    /// A tokenizer at the start of `css`.
    pub fn new(css: String) -> (t: Self)
        ensures
            t@ == (CssTokenizerView { pos: 0, input: css@ }),
    {
        Self { pos: 0, input: chars_of(css.as_str()) }
    }

    /// The input is held in memory, so its length is a machine number.
    pub proof fn lemma_input_fits(&self)
        ensures
            self@.input.len() <= usize::MAX,
    {
        assert(self.input.len() == self.input@.len());
    }

    /// The end of the run of kind `run` that starts at `from`.
    fn scan(&self, from: usize, run: Run) -> (end: usize)
        requires
            from <= self.input.len(),
        ensures
            end == run_end(self.input@, from as int, run),
            from <= end <= self.input.len(),
    {
        let mut i: usize = from;
        while i < self.input.len() && char_in_run(run, self.input[i])
            invariant
                from <= i <= self.input.len(),
                forall|k: int| from <= k < i ==> in_run(run, #[trigger] self.input@[k]),
            decreases self.input.len() - i,
        {
            i += 1;
        }
        proof {
            lemma_run_end_is(self.input@, from as int, run, i as int);
        }
        i
    }

    /// The next token, or `None` at the end of the input.
    pub fn next(&mut self) -> (r: Option<CssToken>)
        ensures
            final(self)@.input == old(self)@.input,
            final(self)@.pos == css_next(old(self)@.input, old(self)@.pos).pos,
            css_token_view(r) == css_next(old(self)@.input, old(self)@.pos).token,
    {
        if self.pos > self.input.len() {
            return None;
        }
        let start = self.scan(self.pos, Run::Whitespace);
        if start >= self.input.len() {
            self.pos = start;
            return None;
        }
        let c = self.input[start];
        proof {
            lemma_run_end(self.input@, start + 1, Run::Ident);
            lemma_run_end(self.input@, start + 1, Run::Quoted(c));
            lemma_run_end(self.input@, start as int, Run::Number);
        }
        if c == '(' {
            self.pos = start + 1;
            Some(CssToken::OpenParenthesis)
        } else if c == ')' {
            self.pos = start + 1;
            Some(CssToken::CloseParenthesis)
        } else if c == ':' {
            self.pos = start + 1;
            Some(CssToken::Colon)
        } else if c == ';' {
            self.pos = start + 1;
            Some(CssToken::SemiColon)
        } else if c == '{' {
            self.pos = start + 1;
            Some(CssToken::OpenCurly)
        } else if c == '}' {
            self.pos = start + 1;
            Some(CssToken::CloseCurly)
        } else if c == '"' || c == '\'' {
            let end = self.scan(start + 1, Run::Quoted(c));
            let value = string_of_range(&self.input, start + 1, end);
            self.pos = if end < self.input.len() {
                end + 1
            } else {
                end
            };
            Some(CssToken::StringToken(value))
        } else if char_is_ascii_digit(c) {
            let end = self.scan(start, Run::Number);
            let value = string_of_range(&self.input, start, end);
            self.pos = end;
            Some(CssToken::Number(value))
        } else if c == '#' {
            let end = self.scan(start + 1, Run::Ident);
            let value = string_of_range(&self.input, start, end);
            self.pos = end;
            Some(CssToken::HashToken(value))
        } else if c == '-' || char_is_ascii_alpha(c) || c == '_' {
            let end = self.scan(start + 1, Run::Ident);
            let value = string_of_range(&self.input, start, end);
            self.pos = end;
            Some(CssToken::Ident(value))
        } else if c == '@' && start + 1 < self.input.len() && (char_is_ascii_alpha(
            self.input[start + 1],
        ) || self.input[start + 1] == '_') {
            let end = self.scan(start + 1, Run::Ident);
            let value = string_of_range(&self.input, start + 1, end);
            self.pos = end;
            Some(CssToken::AtKeyword(value))
        } else {
            self.pos = start + 1;
            Some(CssToken::Delim(c))
        }
    }
}

} // verus!
