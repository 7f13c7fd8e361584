//! The HTML tokenizer: a state machine over the characters of a document,
//! pulled one token at a time.

use crate::renderer::html::attribute::attributes_view;
use crate::renderer::html::attribute::clone_attributes;
use crate::renderer::html::attribute::Attribute;
use crate::renderer::html::attribute::AttributeView;
use crate::utils::ascii_lower;
use crate::utils::char_is_ascii_alpha;
use crate::utils::char_to_ascii_lower;
use crate::utils::chars_of;
use crate::utils::is_ascii_alpha;
use crate::utils::push_char;
use vstd::prelude::*;

verus! {

/// What an [`HtmlToken`] holds.
pub enum HtmlTokenView {
    StartTag { tag: Seq<char>, self_closing: bool, attributes: Seq<AttributeView> },
    EndTag { tag: Seq<char> },
    Char(char),
    Eof,
}

#[derive(Debug, PartialEq, Eq)]
pub enum HtmlToken {
    StartTag { tag: String, self_closing: bool, attributes: Vec<Attribute> },
    EndTag { tag: String },
    Char(char),
    /// End of the input.
    Eof,
}

impl View for HtmlToken {
    type V = HtmlTokenView;

    open spec fn view(&self) -> HtmlTokenView {
        match self {
            HtmlToken::StartTag { tag, self_closing, attributes } => HtmlTokenView::StartTag {
                tag: tag@,
                self_closing: *self_closing,
                attributes: attributes_view(attributes@),
            },
            HtmlToken::EndTag { tag } => HtmlTokenView::EndTag { tag: tag@ },
            HtmlToken::Char(c) => HtmlTokenView::Char(*c),
            HtmlToken::Eof => HtmlTokenView::Eof,
        }
    }
}

impl Clone for HtmlToken {
    fn clone(&self) -> (r: Self)
        ensures
            r@ == self@,
    {
        match self {
            HtmlToken::StartTag { tag, self_closing, attributes } => HtmlToken::StartTag {
                tag: tag.clone(),
                self_closing: *self_closing,
                attributes: clone_attributes(attributes),
            },
            HtmlToken::EndTag { tag } => HtmlToken::EndTag { tag: tag.clone() },
            HtmlToken::Char(c) => HtmlToken::Char(*c),
            HtmlToken::Eof => HtmlToken::Eof,
        }
    }
}

/// The view of a token that may be absent.
pub open spec fn token_view(t: Option<HtmlToken>) -> Option<HtmlTokenView> {
    match t {
        Some(t) => Some(t@),
        None => None,
    }
}

#[derive(Debug, Clone, Copy, PartialEq, Eq, Structural)]
pub enum State {
    Data,
    TagOpen,
    EndTagOpen,
    TagName,
    BeforeAttributeName,
    AttributeName,
    AfterAttributeName,
    BeforeAttributeValue,
    AttributeValueDoubleQuoted,
    AttributeValueSingleQuoted,
    AttributeValueUnquoted,
    AfterAttributeValueQuoted,
    SelfClosingStartTag,
    ScriptData,
    ScriptDataLessThanSign,
    ScriptDataEndTagOpen,
    ScriptDataEndTagName,
    TemporaryBuffer,
}

/// The tokenizer as a mathematical value.
pub struct TokenizerView {
    pub state: State,
    /// How many characters of `input` have been consumed.
    pub pos: int,
    /// Whether the next step reads the last consumed character again.
    pub reconsume: bool,
    /// The tag under construction.
    pub latest: Option<HtmlTokenView>,
    pub input: Seq<char>,
    /// Characters of an unfinished end tag inside a script, waiting to be
    /// given back as character tokens.
    pub buf: Seq<char>,
    /// Whether `Eof` has been emitted.
    pub finished: bool,
}

impl TokenizerView {
    pub open spec fn wf(self) -> bool {
        &&& 0 <= self.pos <= self.input.len()
        &&& self.reconsume ==> 1 <= self.pos
        &&& self.latest matches Some(tag) ==> tag is StartTag || tag is EndTag
    }
}

/// One transition: the tokenizer after it, and the token it emitted, if any.
pub struct Step {
    pub next: TokenizerView,
    pub token: Option<HtmlTokenView>,
}

/// Tab, line feed, form feed, carriage return and space.
pub open spec fn is_html_whitespace(c: char) -> bool {
    c == ' ' || c == '\n' || c == '\t' || c == '\r' || c == '\u{c}'
}

/// `"script"`, the tag name that ends script data.
pub open spec fn script_name() -> Seq<char> {
    seq!['s', 'c', 'r', 'i', 'p', 't']
}

/// The character that the next step reads: the last consumed one if it was
/// flagged for reconsumption, else the next of the input; `None` at the end
/// of the input.
pub open spec fn current_char(t: TokenizerView) -> Option<char> {
    if t.reconsume {
        if 1 <= t.pos <= t.input.len() {
            Some(t.input[t.pos - 1])
        } else {
            None
        }
    } else if 0 <= t.pos < t.input.len() {
        Some(t.input[t.pos])
    } else {
        None
    }
}

/// The tokenizer after it has read [`current_char`].
pub open spec fn after_read(t: TokenizerView) -> TokenizerView {
    TokenizerView {
        reconsume: false,
        pos: if !t.reconsume && 0 <= t.pos < t.input.len() {
            t.pos + 1
        } else {
            t.pos
        },
        ..t
    }
}

/// A fresh tag with an empty name.
pub open spec fn empty_tag(start: bool) -> HtmlTokenView {
    if start {
        HtmlTokenView::StartTag {
            tag: Seq::empty(),
            self_closing: false,
            attributes: Seq::empty(),
        }
    } else {
        HtmlTokenView::EndTag { tag: Seq::empty() }
    }
}

/// The tag under construction with `c` appended to its name.
pub open spec fn with_tag_char(latest: Option<HtmlTokenView>, c: char) -> Option<HtmlTokenView> {
    match latest {
        Some(HtmlTokenView::StartTag { tag, self_closing, attributes }) => Some(
            HtmlTokenView::StartTag { tag: tag.push(c), self_closing, attributes },
        ),
        Some(HtmlTokenView::EndTag { tag }) => Some(HtmlTokenView::EndTag { tag: tag.push(c) }),
        _ => latest,
    }
}

/// The start tag under construction with one more, empty, attribute.
/// An end tag carries no attributes and stays as it is.
pub open spec fn with_new_attribute(latest: Option<HtmlTokenView>) -> Option<HtmlTokenView> {
    match latest {
        Some(HtmlTokenView::StartTag { tag, self_closing, attributes }) => Some(
            HtmlTokenView::StartTag {
                tag,
                self_closing,
                attributes: attributes.push(
                    AttributeView { name: Seq::empty(), value: Seq::empty() },
                ),
            },
        ),
        _ => latest,
    }
}

/// An attribute with `c` appended to its name or to its value.
pub open spec fn attribute_with_char(a: AttributeView, c: char, is_name: bool) -> AttributeView {
    if is_name {
        AttributeView { name: a.name.push(c), value: a.value }
    } else {
        AttributeView { name: a.name, value: a.value.push(c) }
    }
}

/// The start tag under construction with `c` appended to the name or the
/// value of its last attribute.
pub open spec fn with_attribute_char(
    latest: Option<HtmlTokenView>,
    c: char,
    is_name: bool,
) -> Option<HtmlTokenView> {
    match latest {
        Some(HtmlTokenView::StartTag { tag, self_closing, attributes }) => if attributes.len()
            > 0 {
            Some(
                HtmlTokenView::StartTag {
                    tag,
                    self_closing,
                    attributes: attributes.update(
                        attributes.len() - 1,
                        attribute_with_char(attributes.last(), c, is_name),
                    ),
                },
            )
        } else {
            latest
        },
        _ => latest,
    }
}

/// The start tag under construction, marked as self-closing.
pub open spec fn with_self_closing(latest: Option<HtmlTokenView>) -> Option<HtmlTokenView> {
    match latest {
        Some(HtmlTokenView::StartTag { tag, self_closing, attributes }) => Some(
            HtmlTokenView::StartTag { tag, self_closing: true, attributes },
        ),
        _ => latest,
    }
}

/// Whether some attribute of `attrs` has the name `name`.
pub open spec fn name_occurs(attrs: Seq<AttributeView>, name: Seq<char>) -> bool {
    exists|j: int| 0 <= j < attrs.len() && (#[trigger] attrs[j]).name == name
}

/// The attributes without those whose name occurred earlier in the list.
pub open spec fn keep_first_names(attrs: Seq<AttributeView>) -> Seq<AttributeView>
    decreases attrs.len(),
{
    if attrs.len() == 0 {
        Seq::empty()
    } else if name_occurs(attrs.drop_last(), attrs.last().name) {
        keep_first_names(attrs.drop_last())
    } else {
        keep_first_names(attrs.drop_last()).push(attrs.last())
    }
}

/// The tag as it is emitted: of attributes with the same name only the
/// first is kept.
pub open spec fn emitted_tag(latest: Option<HtmlTokenView>) -> Option<HtmlTokenView> {
    match latest {
        Some(HtmlTokenView::StartTag { tag, self_closing, attributes }) => Some(
            HtmlTokenView::StartTag {
                tag,
                self_closing,
                attributes: keep_first_names(attributes),
            },
        ),
        _ => latest,
    }
}

/// The name of the tag under construction.
pub open spec fn latest_name(latest: Option<HtmlTokenView>) -> Seq<char> {
    match latest {
        Some(HtmlTokenView::StartTag { tag, .. }) => tag,
        Some(HtmlTokenView::EndTag { tag }) => tag,
        _ => Seq::empty(),
    }
}

/// A transition to `state` that emits nothing.
pub open spec fn go(t: TokenizerView, state: State) -> Step {
    Step { next: TokenizerView { state, ..t }, token: None }
}

/// A transition to `state` that flags the character just read, so that
/// the next step reads it again.
pub open spec fn go_reconsume(t: TokenizerView, state: State) -> Step {
    Step { next: TokenizerView { state, reconsume: true, ..t }, token: None }
}

/// The tag under construction is emitted and the tokenizer returns to `Data`.
pub open spec fn emit_tag(t: TokenizerView) -> Step {
    Step {
        next: TokenizerView { state: State::Data, latest: None, ..t },
        token: emitted_tag(t.latest),
    }
}

/// The input has ended: `Eof` is emitted and the tokenizer is finished.
pub open spec fn emit_eof(t: TokenizerView) -> Step {
    Step { next: TokenizerView { finished: true, ..t }, token: Some(HtmlTokenView::Eof) }
}

/// The transition out of a state that reads a character. `t` is the
/// tokenizer after the read and `c` the character read.
pub open spec fn on_char(t: TokenizerView, c: char) -> Step {
    match t.state {
        State::Data => if c == '<' {
            go(t, State::TagOpen)
        } else {
            Step { next: t, token: Some(HtmlTokenView::Char(c)) }
        },
        State::TagOpen => if c == '/' {
            go(t, State::EndTagOpen)
        } else if is_ascii_alpha(c) {
            go_reconsume(TokenizerView { latest: Some(empty_tag(true)), ..t }, State::TagName)
        } else {
            go_reconsume(t, State::Data)
        },
        State::EndTagOpen => if is_ascii_alpha(c) {
            go_reconsume(TokenizerView { latest: Some(empty_tag(false)), ..t }, State::TagName)
        } else {
            go(t, State::EndTagOpen)
        },
        State::TagName => if is_html_whitespace(c) {
            go(t, State::BeforeAttributeName)
        } else if c == '/' {
            go(t, State::SelfClosingStartTag)
        } else if c == '>' {
            emit_tag(t)
        } else {
            go(
                TokenizerView { latest: with_tag_char(t.latest, ascii_lower(c)), ..t },
                State::TagName,
            )
        },
        State::BeforeAttributeName => if is_html_whitespace(c) {
            go(t, State::BeforeAttributeName)
        } else if c == '/' {
            go(t, State::SelfClosingStartTag)
        } else if c == '>' {
            emit_tag(t)
        } else {
            go_reconsume(
                TokenizerView { latest: with_new_attribute(t.latest), ..t },
                State::AttributeName,
            )
        },
        State::AttributeName => if is_html_whitespace(c) {
            go(t, State::AfterAttributeName)
        } else if c == '/' {
            go(t, State::SelfClosingStartTag)
        } else if c == '>' {
            emit_tag(t)
        } else if c == '=' {
            go(t, State::BeforeAttributeValue)
        } else {
            go(
                TokenizerView {
                    latest: with_attribute_char(t.latest, ascii_lower(c), true),
                    ..t
                },
                State::AttributeName,
            )
        },
        State::AfterAttributeName => if is_html_whitespace(c) {
            go(t, State::AfterAttributeName)
        } else if c == '/' {
            go(t, State::SelfClosingStartTag)
        } else if c == '=' {
            go(t, State::BeforeAttributeValue)
        } else if c == '>' {
            emit_tag(t)
        } else {
            go_reconsume(
                TokenizerView { latest: with_new_attribute(t.latest), ..t },
                State::AttributeName,
            )
        },
        State::BeforeAttributeValue => if is_html_whitespace(c) {
            go(t, State::BeforeAttributeValue)
        } else if c == '"' {
            go(t, State::AttributeValueDoubleQuoted)
        } else if c == '\'' {
            go(t, State::AttributeValueSingleQuoted)
        } else {
            go_reconsume(t, State::AttributeValueUnquoted)
        },
        State::AttributeValueDoubleQuoted => if c == '"' {
            go(t, State::AfterAttributeValueQuoted)
        } else {
            go(
                TokenizerView { latest: with_attribute_char(t.latest, c, false), ..t },
                State::AttributeValueDoubleQuoted,
            )
        },
        State::AttributeValueSingleQuoted => if c == '\'' {
            go(t, State::AfterAttributeValueQuoted)
        } else {
            go(
                TokenizerView { latest: with_attribute_char(t.latest, c, false), ..t },
                State::AttributeValueSingleQuoted,
            )
        },
        State::AttributeValueUnquoted => if is_html_whitespace(c) {
            go(t, State::BeforeAttributeName)
        } else if c == '>' {
            emit_tag(t)
        } else {
            go(
                TokenizerView { latest: with_attribute_char(t.latest, c, false), ..t },
                State::AttributeValueUnquoted,
            )
        },
        State::AfterAttributeValueQuoted => if is_html_whitespace(c) {
            go(t, State::BeforeAttributeName)
        } else if c == '/' {
            go(t, State::SelfClosingStartTag)
        } else if c == '>' {
            emit_tag(t)
        } else {
            go_reconsume(t, State::BeforeAttributeName)
        },
        State::SelfClosingStartTag => if c == '>' {
            emit_tag(TokenizerView { latest: with_self_closing(t.latest), ..t })
        } else {
            go(t, State::SelfClosingStartTag)
        },
        State::ScriptData => if c == '<' {
            go(t, State::ScriptDataLessThanSign)
        } else {
            Step { next: t, token: Some(HtmlTokenView::Char(c)) }
        },
        State::ScriptDataLessThanSign => if c == '/' {
            go(TokenizerView { buf: Seq::empty(), ..t }, State::ScriptDataEndTagOpen)
        } else {
            Step {
                next: TokenizerView { state: State::ScriptData, reconsume: true, ..t },
                token: Some(HtmlTokenView::Char('<')),
            }
        },
        State::ScriptDataEndTagOpen => if is_ascii_alpha(c) {
            go_reconsume(
                TokenizerView { latest: Some(empty_tag(false)), ..t },
                State::ScriptDataEndTagName,
            )
        } else {
            Step {
                next: TokenizerView { state: State::ScriptData, reconsume: true, ..t },
                token: Some(HtmlTokenView::Char('<')),
            }
        },
        State::ScriptDataEndTagName => if c == '>' && latest_name(t.latest) == script_name() {
            emit_tag(t)
        } else if is_ascii_alpha(c) {
            go(
                TokenizerView {
                    buf: t.buf.push(c),
                    latest: with_tag_char(t.latest, ascii_lower(c)),
                    ..t
                },
                State::ScriptDataEndTagName,
            )
        } else {
            go(
                TokenizerView { buf: (seq!['<', '/'] + t.buf).push(c), latest: None, ..t },
                State::TemporaryBuffer,
            )
        },
        State::TemporaryBuffer => go(t, State::TemporaryBuffer),
    }
}

/// One transition of the state machine.
///
/// `TemporaryBuffer` reads nothing: it gives back the first buffered
/// character, or returns to `ScriptData` once the buffer is empty. Every
/// other state reads one character; at the end of the input it emits `Eof`.
pub open spec fn spec_step(t: TokenizerView) -> Step {
    if t.state == State::TemporaryBuffer {
        if t.buf.len() == 0 {
            go(t, State::ScriptData)
        } else {
            Step {
                next: TokenizerView { buf: t.buf.drop_first(), ..t },
                token: Some(HtmlTokenView::Char(t.buf[0])),
            }
        }
    } else {
        match current_char(t) {
            Some(c) => on_char(after_read(t), c),
            None => emit_eof(after_read(t)),
        }
    }
}

/// How many characters are still to be read, the flagged one included.
pub open spec fn remaining(t: TokenizerView) -> int {
    t.input.len() - t.pos + if t.reconsume {
        1int
    } else {
        0int
    }
}

/// Orders the states so that a transition which flags its character for
/// reconsumption always leads to a lower state.
pub open spec fn rank(s: State) -> int {
    match s {
        State::AfterAttributeValueQuoted => 3,
        State::BeforeAttributeName => 2,
        State::TagOpen
        | State::EndTagOpen
        | State::AfterAttributeName
        | State::BeforeAttributeValue
        | State::ScriptDataLessThanSign
        | State::ScriptDataEndTagOpen
        | State::TemporaryBuffer => 1,
        _ => 0,
    }
}

/// Whether `b` is strictly closer to the end of the input than `a`.
pub open spec fn closer_to_end(a: TokenizerView, b: TokenizerView) -> bool {
    ||| remaining(b) < remaining(a)
    ||| (remaining(b) == remaining(a) && b.buf.len() < a.buf.len())
    ||| (remaining(b) == remaining(a) && b.buf.len() == a.buf.len() && rank(b.state) < rank(
        a.state,
    ))
}

/// Every transition keeps the tokenizer well formed; unless it emits
/// `Eof`, it brings the tokenizer strictly closer to the end of the input
/// and leaves it unfinished.
pub proof fn lemma_step_progress(t: TokenizerView)
    requires
        t.wf(),
        !t.finished,
    ensures
        spec_step(t).next.wf(),
        spec_step(t).next.input == t.input,
        spec_step(t).token != Some(HtmlTokenView::Eof) ==> closer_to_end(t, spec_step(t).next)
            && !spec_step(t).next.finished,
        spec_step(t).token == Some(HtmlTokenView::Eof) ==> spec_step(t).next.finished,
{
}

/// What one call of `next` does: transitions are taken until one emits a
/// token. A finished tokenizer stays as it is and gives nothing.
pub open spec fn spec_next(t: TokenizerView) -> Step
    decreases remaining(t), t.buf.len(), rank(t.state),
{
    if !t.wf() || t.finished {
        Step { next: t, token: None }
    } else if spec_step(t).token is Some {
        spec_step(t)
    } else {
        spec_next(spec_step(t).next)
    }
}

/// A call of `next` on an unfinished tokenizer gives a token. Unless that
/// token is `Eof`, the tokenizer ends strictly closer to the end of its
/// input and unfinished; with `Eof` it is finished.
pub proof fn lemma_next_progress(t: TokenizerView)
    requires
        t.wf(),
        !t.finished,
    ensures
        spec_next(t).token is Some,
        spec_next(t).next.wf(),
        spec_next(t).next.input == t.input,
        spec_next(t).token != Some(HtmlTokenView::Eof) ==> closer_to_end(t, spec_next(t).next)
            && !spec_next(t).next.finished,
        spec_next(t).token == Some(HtmlTokenView::Eof) ==> spec_next(t).next.finished,
    decreases remaining(t), t.buf.len(), rank(t.state),
{
    lemma_step_progress(t);
    if spec_step(t).token is None {
        lemma_next_progress(spec_step(t).next);
    }
}

/// All the tokens that the tokenizer gives when it is pulled until it
/// gives nothing more.
pub open spec fn token_stream(t: TokenizerView) -> Seq<HtmlTokenView>
    decreases remaining(t), t.buf.len(), rank(t.state),
    via token_stream_decreases
{
    if !t.wf() || t.finished {
        Seq::empty()
    } else {
        match spec_next(t).token {
            Some(HtmlTokenView::Eof) => seq![HtmlTokenView::Eof],
            Some(tok) => seq![tok] + token_stream(spec_next(t).next),
            None => Seq::empty(),
        }
    }
}

#[via_fn]
proof fn token_stream_decreases(t: TokenizerView) {
    if t.wf() && !t.finished {
        lemma_next_progress(t);
    }
}

/// Tokenization ends, and it ends with the only `Eof` of the stream: the
/// stream of an unfinished tokenizer is never empty, its last token is
/// `Eof`, and no token before the last is `Eof`.
pub proof fn lemma_stream_ends_with_single_eof(t: TokenizerView)
    requires
        t.wf(),
        !t.finished,
    ensures
        token_stream(t).len() >= 1,
        token_stream(t).last() == HtmlTokenView::Eof,
        forall|i: int|
            0 <= i < token_stream(t).len() - 1 ==> token_stream(t)[i] != HtmlTokenView::Eof,
    decreases remaining(t), t.buf.len(), rank(t.state),
{
    lemma_next_progress(t);
    let s = spec_next(t);
    if s.token != Some(HtmlTokenView::Eof) {
        lemma_stream_ends_with_single_eof(s.next);
        let rest = token_stream(s.next);
        let all = token_stream(t);
        assert(all == seq![s.token->0] + rest);
        assert(all.last() == rest.last());
        assert forall|i: int| 0 <= i < all.len() - 1 implies all[i] != HtmlTokenView::Eof by {
            if i > 0 {
                assert(all[i] == rest[i - 1]);
            }
        }
    }
}

/// The tokenizer before it has read anything of `input`.
pub open spec fn initial(input: Seq<char>) -> TokenizerView {
    TokenizerView {
        state: State::Data,
        pos: 0,
        reconsume: false,
        latest: None,
        input,
        buf: Seq::empty(),
        finished: false,
    }
}

pub fn char_is_html_whitespace(c: char) -> (r: bool)
    ensures
        r == is_html_whitespace(c),
{
    c == ' ' || c == '\n' || c == '\t' || c == '\r' || c == '\u{c}'
}

/// Drops every attribute whose name an earlier attribute already has.
pub fn remove_duplicate_names(attrs: Vec<Attribute>) -> (out: Vec<Attribute>)
    ensures
        attributes_view(out@) == keep_first_names(attributes_view(attrs@)),
{
    let ghost all = attributes_view(attrs@);
    let mut out: Vec<Attribute> = Vec::new();
    let mut i: usize = 0;
    assert(all.take(0) =~= Seq::empty());
    assert(attributes_view(out@) =~= Seq::empty());
    while i < attrs.len()
        invariant
            i <= attrs.len(),
            all == attributes_view(attrs@),
            attributes_view(out@) == keep_first_names(all.take(i as int)),
        decreases attrs.len() - i,
    {
        let mut j: usize = 0;
        let mut found = false;
        assert(all.take(0) =~= Seq::empty());
        while j < i
            invariant
                j <= i < attrs.len(),
                all == attributes_view(attrs@),
                found == name_occurs(all.take(j as int), all[i as int].name),
            decreases i - j,
        {
            let ghost before = all.take(j as int);
            let ghost after = all.take(j + 1);
            if attrs[j].same_name(&attrs[i]) {
                found = true;
                assert(after[j as int].name == all[i as int].name);
            } else {
                proof {
                    if name_occurs(after, all[i as int].name) {
                        let k = choose|k: int|
                            0 <= k < after.len() && (#[trigger] after[k]).name == all[i as int].name;
                        assert(before[k].name == all[i as int].name);
                    }
                    if name_occurs(before, all[i as int].name) {
                        let k = choose|k: int|
                            0 <= k < before.len() && (#[trigger] before[k]).name
                                == all[i as int].name;
                        assert(after[k].name == all[i as int].name);
                    }
                }
            }
            proof {
                if found && !name_occurs(after, all[i as int].name) {
                    let k = choose|k: int|
                        0 <= k < before.len() && (#[trigger] before[k]).name == all[i as int].name;
                    assert(after[k].name == all[i as int].name);
                }
            }
            j += 1;
        }
        let ghost prefix = all.take(i + 1);
        assert(prefix.drop_last() =~= all.take(i as int));
        assert(prefix.last() == all[i as int]);
        if !found {
            let ghost old_out = attributes_view(out@);
            out.push(attrs[i].clone());
            assert(attributes_view(out@) =~= old_out.push(all[i as int]));
        }
        i += 1;
    }
    assert(all.take(attrs.len() as int) =~= all);
    out
}

#[derive(Debug, PartialEq, Eq)]
pub struct HtmlTokenizer {
    state: State,
    pos: usize,
    reconsume: bool,
    latest_token: Option<HtmlToken>,
    input: Vec<char>,
    buf: Vec<char>,
    finished: bool,
}

impl View for HtmlTokenizer {
    type V = TokenizerView;

    closed spec fn view(&self) -> TokenizerView {
        TokenizerView {
            state: self.state,
            pos: self.pos as int,
            reconsume: self.reconsume,
            latest: token_view(self.latest_token),
            input: self.input@,
            buf: self.buf@,
            finished: self.finished,
        }
    }
}

impl HtmlTokenizer {
    /// A tokenizer at the start of `html`, in the `Data` state.
    pub fn new(html: String) -> (t: Self)
        ensures
            t@ == initial(html@),
    {
        Self {
            state: State::Data,
            pos: 0,
            reconsume: false,
            latest_token: None,
            input: chars_of(html.as_str()),
            buf: Vec::new(),
            finished: false,
        }
    }

    /// Puts the tokenizer into `state`. The tree builder does this after a
    /// `<script>` start tag, with `ScriptData`.
    pub fn switch_context(&mut self, state: State)
        ensures
            final(self)@ == (TokenizerView { state, ..old(self)@ }),
    {
        self.state = state;
    }

    /// Whether `Eof` has been emitted.
    pub fn is_finished(&self) -> (r: bool)
        ensures
            r == self@.finished,
    {
        self.finished
    }

    fn is_eof(&self) -> (r: bool)
        ensures
            r == (self@.pos >= self@.input.len()),
    {
        self.pos >= self.input.len()
    }

    fn consume_next_input(&mut self) -> (c: Option<char>)
        requires
            old(self)@.wf(),
            !old(self)@.reconsume,
        ensures
            c == current_char(old(self)@),
            final(self)@ == after_read(old(self)@),
    {
        if self.is_eof() {
            None
        } else {
            assert(self.pos < self.input.len());
            let c = self.input[self.pos];
            self.pos = self.pos + 1;
            Some(c)
        }
    }

    fn reconsume_input(&mut self) -> (c: Option<char>)
        requires
            old(self)@.wf(),
            old(self)@.reconsume,
        ensures
            c == current_char(old(self)@),
            final(self)@ == after_read(old(self)@),
    {
        self.reconsume = false;
        Some(self.input[self.pos - 1])
    }

    fn create_tag(&mut self, start_tag_token: bool)
        ensures
            final(self)@ == (TokenizerView {
                latest: Some(empty_tag(start_tag_token)),
                ..old(self)@
            }),
    {
        if start_tag_token {
            let attributes: Vec<Attribute> = Vec::new();
            assert(attributes_view(attributes@) =~= Seq::empty());
            self.latest_token = Some(
                HtmlToken::StartTag { tag: String::new(), self_closing: false, attributes },
            );
        } else {
            self.latest_token = Some(HtmlToken::EndTag { tag: String::new() });
        }
    }

    fn append_tag_name(&mut self, c: char)
        ensures
            final(self)@ == (TokenizerView {
                latest: with_tag_char(old(self)@.latest, c),
                ..old(self)@
            }),
    {
        match self.latest_token.take() {
            Some(HtmlToken::StartTag { tag, self_closing, attributes }) => {
                let mut tag = tag;
                push_char(&mut tag, c);
                self.latest_token = Some(HtmlToken::StartTag { tag, self_closing, attributes });
            },
            Some(HtmlToken::EndTag { tag }) => {
                let mut tag = tag;
                push_char(&mut tag, c);
                self.latest_token = Some(HtmlToken::EndTag { tag });
            },
            other => {
                self.latest_token = other;
            },
        }
    }

    fn start_new_attribute(&mut self)
        ensures
            final(self)@ == (TokenizerView {
                latest: with_new_attribute(old(self)@.latest),
                ..old(self)@
            }),
    {
        match self.latest_token.take() {
            Some(HtmlToken::StartTag { tag, self_closing, attributes }) => {
                let mut attributes = attributes;
                let ghost before = attributes_view(attributes@);
                attributes.push(Attribute::new());
                assert(attributes_view(attributes@) =~= before.push(
                    AttributeView { name: Seq::empty(), value: Seq::empty() },
                ));
                self.latest_token = Some(HtmlToken::StartTag { tag, self_closing, attributes });
            },
            other => {
                self.latest_token = other;
            },
        }
    }

    fn append_attribute(&mut self, c: char, is_name: bool)
        ensures
            final(self)@ == (TokenizerView {
                latest: with_attribute_char(old(self)@.latest, c, is_name),
                ..old(self)@
            }),
    {
        match self.latest_token.take() {
            Some(HtmlToken::StartTag { tag, self_closing, attributes }) => {
                let mut attributes = attributes;
                let ghost before = attributes_view(attributes@);
                match attributes.pop() {
                    Some(last) => {
                        let mut last = last;
                        last.add_char(c, is_name);
                        attributes.push(last);
                        assert(attributes_view(attributes@) =~= before.update(
                            before.len() - 1,
                            attribute_with_char(before.last(), c, is_name),
                        ));
                    },
                    None => {
                        assert(attributes_view(attributes@) =~= before);
                    },
                }
                self.latest_token = Some(HtmlToken::StartTag { tag, self_closing, attributes });
            },
            other => {
                self.latest_token = other;
            },
        }
    }

    fn set_self_closing_flag(&mut self)
        ensures
            final(self)@ == (TokenizerView {
                latest: with_self_closing(old(self)@.latest),
                ..old(self)@
            }),
    {
        match self.latest_token.take() {
            Some(HtmlToken::StartTag { tag, self_closing, attributes }) => {
                self.latest_token = Some(
                    HtmlToken::StartTag { tag, self_closing: true, attributes },
                );
            },
            other => {
                self.latest_token = other;
            },
        }
    }

    /// Hands out the tag under construction and returns to `Data`.
    fn take_latest_token(&mut self) -> (r: Option<HtmlToken>)
        ensures
            final(self)@ == emit_tag(old(self)@).next,
            token_view(r) == emit_tag(old(self)@).token,
    {
        self.state = State::Data;
        match self.latest_token.take() {
            Some(HtmlToken::StartTag { tag, self_closing, attributes }) => Some(
                HtmlToken::StartTag {
                    tag,
                    self_closing,
                    attributes: remove_duplicate_names(attributes),
                },
            ),
            other => other,
        }
    }

    /// Whether the end tag under construction is named `script`.
    fn latest_is_script(&self) -> (r: bool)
        ensures
            r == (latest_name(self@.latest) == script_name()),
    {
        proof {
            reveal_strlit("script");
        }
        let name = "script".to_owned();
        assert(name@ =~= script_name());
        match &self.latest_token {
            Some(HtmlToken::StartTag { tag, .. }) => *tag == name,
            Some(HtmlToken::EndTag { tag }) => *tag == name,
            _ => {
                assert(Seq::<char>::empty().len() != script_name().len());
                false
            },
        }
    }

    /// The buffered characters of an unfinished end tag become text again:
    /// `</`, the buffer, and the character that ended the name.
    fn refill_buffer(&mut self, c: char)
        ensures
            final(self)@ == (TokenizerView {
                buf: (seq!['<', '/'] + old(self)@.buf).push(c),
                latest: None,
                state: State::TemporaryBuffer,
                ..old(self)@
            }),
    {
        let mut fresh: Vec<char> = Vec::new();
        fresh.push('<');
        fresh.push('/');
        let mut i: usize = 0;
        while i < self.buf.len()
            invariant
                i <= self.buf.len(),
                fresh@ == seq!['<', '/'] + self.buf@.take(i as int),
                *self == *old(self),
            decreases self.buf.len() - i,
        {
            fresh.push(self.buf[i]);
            i += 1;
            assert(fresh@ =~= seq!['<', '/'] + self.buf@.take(i as int));
        }
        fresh.push(c);
        assert(self.buf@.take(self.buf.len() as int) =~= self.buf@);
        self.buf = fresh;
        self.latest_token = None;
        self.state = State::TemporaryBuffer;
    }

    /// One transition of the state machine.
    fn step(&mut self) -> (r: Option<HtmlToken>)
        requires
            old(self)@.wf(),
        ensures
            final(self)@ == spec_step(old(self)@).next,
            token_view(r) == spec_step(old(self)@).token,
    {
        if self.state == State::TemporaryBuffer {
            if self.buf.len() == 0 {
                self.state = State::ScriptData;
                return None;
            }
            let ghost before = self.buf@;
            let c = self.buf.remove(0);
            assert(self.buf@ =~= before.drop_first());
            return Some(HtmlToken::Char(c));
        }
        let read = if self.reconsume {
            self.reconsume_input()
        } else {
            self.consume_next_input()
        };
        let c = match read {
            Some(c) => c,
            None => {
                self.finished = true;
                return Some(HtmlToken::Eof);
            },
        };
        match self.state {
            State::Data => {
                if c == '<' {
                    self.state = State::TagOpen;
                    None
                } else {
                    Some(HtmlToken::Char(c))
                }
            },
            State::TagOpen => {
                if c == '/' {
                    self.state = State::EndTagOpen;
                } else if char_is_ascii_alpha(c) {
                    self.reconsume = true;
                    self.state = State::TagName;
                    self.create_tag(true);
                } else {
                    self.reconsume = true;
                    self.state = State::Data;
                }
                None
            },
            State::EndTagOpen => {
                if char_is_ascii_alpha(c) {
                    self.reconsume = true;
                    self.state = State::TagName;
                    self.create_tag(false);
                }
                None
            },
            State::TagName => {
                if char_is_html_whitespace(c) {
                    self.state = State::BeforeAttributeName;
                    None
                } else if c == '/' {
                    self.state = State::SelfClosingStartTag;
                    None
                } else if c == '>' {
                    self.take_latest_token()
                } else {
                    self.append_tag_name(char_to_ascii_lower(c));
                    None
                }
            },
            State::BeforeAttributeName => {
                if char_is_html_whitespace(c) {
                    None
                } else if c == '/' {
                    self.state = State::SelfClosingStartTag;
                    None
                } else if c == '>' {
                    self.take_latest_token()
                } else {
                    self.reconsume = true;
                    self.state = State::AttributeName;
                    self.start_new_attribute();
                    None
                }
            },
            State::AttributeName => {
                if char_is_html_whitespace(c) {
                    self.state = State::AfterAttributeName;
                    None
                } else if c == '/' {
                    self.state = State::SelfClosingStartTag;
                    None
                } else if c == '>' {
                    self.take_latest_token()
                } else if c == '=' {
                    self.state = State::BeforeAttributeValue;
                    None
                } else {
                    self.append_attribute(char_to_ascii_lower(c), true);
                    None
                }
            },
            State::AfterAttributeName => {
                if char_is_html_whitespace(c) {
                    None
                } else if c == '/' {
                    self.state = State::SelfClosingStartTag;
                    None
                } else if c == '=' {
                    self.state = State::BeforeAttributeValue;
                    None
                } else if c == '>' {
                    self.take_latest_token()
                } else {
                    self.reconsume = true;
                    self.state = State::AttributeName;
                    self.start_new_attribute();
                    None
                }
            },
            State::BeforeAttributeValue => {
                if char_is_html_whitespace(c) {
                } else if c == '"' {
                    self.state = State::AttributeValueDoubleQuoted;
                } else if c == '\'' {
                    self.state = State::AttributeValueSingleQuoted;
                } else {
                    self.reconsume = true;
                    self.state = State::AttributeValueUnquoted;
                }
                None
            },
            State::AttributeValueDoubleQuoted => {
                if c == '"' {
                    self.state = State::AfterAttributeValueQuoted;
                } else {
                    self.append_attribute(c, false);
                }
                None
            },
            State::AttributeValueSingleQuoted => {
                if c == '\'' {
                    self.state = State::AfterAttributeValueQuoted;
                } else {
                    self.append_attribute(c, false);
                }
                None
            },
            State::AttributeValueUnquoted => {
                if char_is_html_whitespace(c) {
                    self.state = State::BeforeAttributeName;
                    None
                } else if c == '>' {
                    self.take_latest_token()
                } else {
                    self.append_attribute(c, false);
                    None
                }
            },
            State::AfterAttributeValueQuoted => {
                if char_is_html_whitespace(c) {
                    self.state = State::BeforeAttributeName;
                    None
                } else if c == '/' {
                    self.state = State::SelfClosingStartTag;
                    None
                } else if c == '>' {
                    self.take_latest_token()
                } else {
                    self.reconsume = true;
                    self.state = State::BeforeAttributeName;
                    None
                }
            },
            State::SelfClosingStartTag => {
                if c == '>' {
                    self.set_self_closing_flag();
                    self.take_latest_token()
                } else {
                    None
                }
            },
            State::ScriptData => {
                if c == '<' {
                    self.state = State::ScriptDataLessThanSign;
                    None
                } else {
                    Some(HtmlToken::Char(c))
                }
            },
            State::ScriptDataLessThanSign => {
                if c == '/' {
                    self.buf = Vec::new();
                    self.state = State::ScriptDataEndTagOpen;
                    None
                } else {
                    self.reconsume = true;
                    self.state = State::ScriptData;
                    Some(HtmlToken::Char('<'))
                }
            },
            State::ScriptDataEndTagOpen => {
                if char_is_ascii_alpha(c) {
                    self.reconsume = true;
                    self.state = State::ScriptDataEndTagName;
                    self.create_tag(false);
                    None
                } else {
                    self.reconsume = true;
                    self.state = State::ScriptData;
                    Some(HtmlToken::Char('<'))
                }
            },
            State::ScriptDataEndTagName => {
                if c == '>' && self.latest_is_script() {
                    self.take_latest_token()
                } else if char_is_ascii_alpha(c) {
                    self.buf.push(c);
                    self.append_tag_name(char_to_ascii_lower(c));
                    None
                } else {
                    self.refill_buffer(c);
                    None
                }
            },
            State::TemporaryBuffer => None,
        }
    }

    /// The next token, or `None` once `Eof` has been given.
    ///
    /// Transitions are taken until one emits a token. At the end of the
    /// input the token is `Eof`, and the tokenizer is finished from then on.
    pub fn next(&mut self) -> (r: Option<HtmlToken>)
        requires
            old(self)@.wf(),
        ensures
            final(self)@ == spec_next(old(self)@).next,
            token_view(r) == spec_next(old(self)@).token,
            r is None <==> old(self)@.finished,
            final(self)@.wf(),
    {
        if self.finished {
            return None;
        }
        loop
            invariant
                self@.wf(),
                !self@.finished,
                spec_next(self@) == spec_next(old(self)@),
            decreases remaining(self@), self@.buf.len(), rank(self@.state),
        {
            proof {
                lemma_step_progress(self@);
                lemma_next_progress(self@);
            }
            let r = self.step();
            if r.is_some() {
                return r;
            }
        }
    }
}

} // verus!
