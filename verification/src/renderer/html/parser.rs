//! The tree builder: it pulls tokens from the tokenizer and builds the
//! document of a window from them.

use crate::renderer::css::cssom::parse_rules;
use crate::renderer::css::cssom::CssParser;
use crate::renderer::css::cssom::RuleView;
use crate::renderer::css::token::css_tokens;
use crate::renderer::css::token::CssTokenizer;
use crate::renderer::dom::laws::grown_from;
use crate::renderer::dom::laws::lemma_grown_refl;
use crate::renderer::dom::laws::lemma_grown_trans;
use crate::renderer::dom::laws::lemma_with_child_grows;
use crate::renderer::dom::laws::lemma_with_text_char_grows;
use crate::renderer::dom::node::lemma_with_child_shape;
use crate::renderer::dom::node::links_agree;
use crate::renderer::dom::node::tree_wf;
use crate::renderer::dom::node::with_child;
use crate::renderer::dom::node::with_text_char;
use crate::renderer::dom::node::Element;
use crate::renderer::dom::node::ElementKind;
use crate::renderer::dom::node::ElementView;
use crate::renderer::dom::node::NodeKind;
use crate::renderer::dom::node::NodeKindView;
use crate::renderer::dom::node::NodeView;
use crate::renderer::dom::node::Window;
use crate::renderer::html::attribute::attributes_view;
use crate::renderer::html::attribute::clone_attributes;
use crate::renderer::html::attribute::Attribute;
use crate::renderer::html::attribute::AttributeView;
use crate::renderer::html::token::is_html_whitespace;
use crate::renderer::html::token::char_is_html_whitespace;
use crate::renderer::html::token::lemma_next_progress;
use crate::renderer::html::token::rank;
use crate::renderer::html::token::remaining;
use crate::renderer::html::token::spec_next;
use crate::renderer::html::token::HtmlToken;
use crate::renderer::html::token::HtmlTokenView;
use crate::renderer::html::token::HtmlTokenizer;
use crate::renderer::html::token::State;
use crate::renderer::html::token::TokenizerView;
use crate::utils::push_char;
use vstd::prelude::*;

verus! {

#[derive(Debug, Clone, Copy, PartialEq, Eq, Structural)]
pub enum InsertionMode {
    Initial,
    BeforeHtml,
    BeforeHead,
    InHead,
    AfterHead,
    InBody,
    Text,
    /// Kept for tables, which are not supported: no token leads here.
    InTable,
    AfterBody,
    AfterAfterBody,
}

/// The tree builder as a mathematical value.
pub struct ParserView {
    /// The nodes of the document so far.
    pub nodes: Seq<NodeView>,
    /// The style rules so far.
    pub rules: Seq<RuleView>,
    pub mode: InsertionMode,
    /// The mode to return to when the text of a `style` or `script` ends.
    pub original_insertion_mode: InsertionMode,
    /// The places of the elements that are open, the innermost last.
    pub stack: Seq<usize>,
    pub tokenizer: TokenizerView,
}

impl ParserView {
    pub open spec fn wf(self) -> bool {
        &&& tree_wf(self.nodes)
        &&& self.tokenizer.wf()
        &&& self.original_insertion_mode != InsertionMode::Text
        &&& forall|i: int| 0 <= i < self.stack.len() ==> (#[trigger] self.stack[i]) < self.nodes.len()
    }
}

/// What a token does to the builder, and whether the token is used up.
/// One that is not used up is handled again, in the new mode.
pub struct Handled {
    pub parser: ParserView,
    pub consumed: bool,
}

/// The node that takes the next child: the innermost open element, or
/// the document where no element is open.
pub open spec fn current_node(p: ParserView) -> usize {
    if p.stack.len() > 0 {
        p.stack.last()
    } else {
        0
    }
}

/// Whether node `n` is an element of kind `kind`.
pub open spec fn node_is(nodes: Seq<NodeView>, n: usize, kind: ElementKind) -> bool {
    n < nodes.len() && match nodes[n as int].kind {
        NodeKindView::Element(e) => e.kind == kind,
        _ => false,
    }
}

/// The text of node `n`, if it is a text.
pub open spec fn text_of(nodes: Seq<NodeView>, n: usize) -> Option<Seq<char>> {
    if n < nodes.len() {
        match nodes[n as int].kind {
            NodeKindView::Text(s) => Some(s),
            _ => None,
        }
    } else {
        None
    }
}

/// Whether the window can take one more node.
pub open spec fn has_room(p: ParserView) -> bool {
    current_node(p) < p.nodes.len() < usize::MAX
}

/// The builder after a new element of kind `kind` has become the last
/// child of the current node. Unless the tag closed itself, the element
/// is open from then on. A window that is full takes no more nodes.
pub open spec fn insert_element(
    p: ParserView,
    kind: ElementKind,
    attributes: Seq<AttributeView>,
    self_closing: bool,
) -> ParserView {
    if has_room(p) {
        ParserView {
            nodes: with_child(
                p.nodes,
                current_node(p),
                NodeKindView::Element(ElementView { kind, attributes }),
            ),
            stack: if self_closing {
                p.stack
            } else {
                p.stack.push(p.nodes.len() as usize)
            },
            ..p
        }
    } else {
        p
    }
}

/// The builder after the character `c` has been added to the current
/// node: to the text that is its last child, or, where its last child is
/// no text, as a new text. Unless `verbatim` holds, whitespace starts no
/// new text, and neither does anything in a window that is full.
pub open spec fn insert_char(p: ParserView, c: char, verbatim: bool) -> ParserView {
    let current = current_node(p);
    if current < p.nodes.len() {
        match p.nodes[current as int].last_child {
            Some(last) => if text_of(p.nodes, last) is Some {
                ParserView { nodes: with_text_char(p.nodes, last, c), ..p }
            } else if (!verbatim && is_html_whitespace(c)) || !has_room(p) {
                p
            } else {
                ParserView { nodes: with_child(p.nodes, current, NodeKindView::Text(seq![c])), ..p }
            },
            None => if (!verbatim && is_html_whitespace(c)) || !has_room(p) {
                p
            } else {
                ParserView { nodes: with_child(p.nodes, current, NodeKindView::Text(seq![c])), ..p }
            },
        }
    } else {
        p
    }
}

/// Whether an element of kind `kind` is open.
pub open spec fn in_stack(nodes: Seq<NodeView>, stack: Seq<usize>, kind: ElementKind) -> bool {
    exists|i: int| 0 <= i < stack.len() && node_is(nodes, #[trigger] stack[i], kind)
}

/// The open elements after the innermost ones have been closed, up to
/// and with the innermost element of kind `kind`.
pub open spec fn popped(nodes: Seq<NodeView>, stack: Seq<usize>, kind: ElementKind) -> Seq<usize>
    decreases stack.len(),
{
    if stack.len() == 0 {
        stack
    } else if node_is(nodes, stack.last(), kind) {
        stack.drop_last()
    } else {
        popped(nodes, stack.drop_last(), kind)
    }
}

/// The builder after an end tag for `kind`: where such an element is
/// open, it is closed with all that is open inside it; else nothing
/// changes.
pub open spec fn pop_until(p: ParserView, kind: ElementKind) -> ParserView {
    if in_stack(p.nodes, p.stack, kind) {
        ParserView { stack: popped(p.nodes, p.stack, kind), ..p }
    } else {
        p
    }
}

/// The text of a `style` or `script` element: that of its last child,
/// where that is a text; else empty.
pub open spec fn content_of(nodes: Seq<NodeView>, n: usize) -> Seq<char> {
    if n < nodes.len() {
        match nodes[n as int].last_child {
            Some(last) => match text_of(nodes, last) {
                Some(s) => s,
                None => Seq::empty(),
            },
            None => Seq::empty(),
        }
    } else {
        Seq::empty()
    }
}

/// The rules that a style text holds.
pub open spec fn rules_of(css: Seq<char>) -> Seq<RuleView> {
    parse_rules(css_tokens(css, 0))
}

/// A token that is used up without any effect.
pub open spec fn ignore(p: ParserView) -> Handled {
    Handled { parser: p, consumed: true }
}

/// The builder moves to `mode` and handles the token again there.
pub open spec fn reprocess_in(p: ParserView, mode: InsertionMode) -> Handled {
    Handled { parser: ParserView { mode, ..p }, consumed: false }
}

/// The start of a `style` or `script` element, whose text follows: the
/// element is open, the mode is `Text`, and the mode before it is kept
/// to return to. The text of a script is tokenized as script data.
pub open spec fn start_raw_text(
    p: ParserView,
    kind: ElementKind,
    attributes: Seq<AttributeView>,
) -> Handled {
    let q = insert_element(p, kind, attributes, false);
    Handled {
        parser: ParserView {
            original_insertion_mode: p.mode,
            mode: InsertionMode::Text,
            tokenizer: if kind == ElementKind::Script {
                TokenizerView { state: State::ScriptData, ..q.tokenizer }
            } else {
                q.tokenizer
            },
            ..q
        },
        consumed: true,
    }
}

/// Whether the kind of element holds raw text: `style` and `script` do.
pub open spec fn is_raw_text_kind(kind: ElementKind) -> bool {
    kind == ElementKind::Style || kind == ElementKind::Script
}

/// Whether the kind of element may stand in the body as content: `p`,
/// `h1`, `h2` and `a` may.
pub open spec fn is_content_kind(kind: ElementKind) -> bool {
    kind == ElementKind::P || kind == ElementKind::H1 || kind == ElementKind::H2 || kind
        == ElementKind::A
}

/// What the builder does with a token in the mode `InHead`.
pub open spec fn handle_in_head(p: ParserView, token: HtmlTokenView) -> Handled {
    match token {
        HtmlTokenView::StartTag { tag, self_closing, attributes } => match ElementKind::spec_from_str(
            tag,
        ) {
            Some(kind) => if is_raw_text_kind(kind) {
                if self_closing {
                    Handled { parser: insert_element(p, kind, attributes, true), consumed: true }
                } else {
                    start_raw_text(p, kind, attributes)
                }
            } else {
                reprocess_in(pop_until(p, ElementKind::Head), InsertionMode::AfterHead)
            },
            None => ignore(p),
        },
        HtmlTokenView::EndTag { tag } => if ElementKind::spec_from_str(tag) == Some(
            ElementKind::Head,
        ) {
            Handled {
                parser: ParserView {
                    mode: InsertionMode::AfterHead,
                    ..pop_until(p, ElementKind::Head)
                },
                consumed: true,
            }
        } else {
            ignore(p)
        },
        _ => ignore(p),
    }
}

/// What the builder does with a token in the mode `InBody`.
pub open spec fn handle_in_body(p: ParserView, token: HtmlTokenView) -> Handled {
    match token {
        HtmlTokenView::StartTag { tag, self_closing, attributes } => match ElementKind::spec_from_str(
            tag,
        ) {
            Some(kind) => if is_content_kind(kind) {
                Handled {
                    parser: insert_element(p, kind, attributes, self_closing),
                    consumed: true,
                }
            } else if is_raw_text_kind(kind) {
                if self_closing {
                    Handled { parser: insert_element(p, kind, attributes, true), consumed: true }
                } else {
                    start_raw_text(p, kind, attributes)
                }
            } else {
                ignore(p)
            },
            None => ignore(p),
        },
        HtmlTokenView::EndTag { tag } => match ElementKind::spec_from_str(tag) {
            Some(kind) => if kind == ElementKind::Body {
                Handled {
                    parser: ParserView {
                        mode: InsertionMode::AfterBody,
                        ..pop_until(p, ElementKind::Body)
                    },
                    consumed: true,
                }
            } else if kind == ElementKind::Html {
                if in_stack(p.nodes, p.stack, ElementKind::Body) {
                    Handled {
                        parser: ParserView {
                            mode: InsertionMode::AfterAfterBody,
                            ..pop_until(p, ElementKind::Body)
                        },
                        consumed: true,
                    }
                } else {
                    ignore(p)
                }
            } else if is_content_kind(kind) {
                Handled { parser: pop_until(p, kind), consumed: true }
            } else {
                ignore(p)
            },
            None => ignore(p),
        },
        HtmlTokenView::Char(c) => Handled { parser: insert_char(p, c, false), consumed: true },
        HtmlTokenView::Eof => ignore(p),
    }
}

/// What the builder does with a token in the mode `Text`, inside a
/// `style` or a `script`: characters are added as they come; the end tag
/// of the element closes it and returns to the mode before it, and the
/// rules of a style text join the style sheet; any other token returns to
/// the mode before and is handled there.
pub open spec fn handle_in_text(p: ParserView, token: HtmlTokenView) -> Handled {
    match token {
        HtmlTokenView::Char(c) => Handled { parser: insert_char(p, c, true), consumed: true },
        HtmlTokenView::EndTag { tag } => if ElementKind::spec_from_str(tag) == Some(
            ElementKind::Style,
        ) && p.stack.len() > 0 && node_is(p.nodes, current_node(p), ElementKind::Style) {
            Handled {
                parser: ParserView {
                    rules: p.rules + rules_of(content_of(p.nodes, current_node(p))),
                    stack: p.stack.drop_last(),
                    mode: p.original_insertion_mode,
                    ..p
                },
                consumed: true,
            }
        } else if ElementKind::spec_from_str(tag) == Some(ElementKind::Script) && p.stack.len() > 0
            && node_is(p.nodes, current_node(p), ElementKind::Script) {
            Handled {
                parser: ParserView {
                    stack: p.stack.drop_last(),
                    mode: p.original_insertion_mode,
                    ..p
                },
                consumed: true,
            }
        } else {
            reprocess_in(p, p.original_insertion_mode)
        },
        _ => reprocess_in(p, p.original_insertion_mode),
    }
}

/// Whether the token is a character of whitespace.
pub open spec fn is_whitespace_token(token: HtmlTokenView) -> bool {
    match token {
        HtmlTokenView::Char(c) => is_html_whitespace(c),
        _ => false,
    }
}

/// Whether the token is the start tag of an element of kind `kind`.
pub open spec fn starts(token: HtmlTokenView, kind: ElementKind) -> bool {
    match token {
        HtmlTokenView::StartTag { tag, .. } => ElementKind::spec_from_str(tag) == Some(kind),
        _ => false,
    }
}

/// The attributes of a start tag; none for any other token.
pub open spec fn attributes_of(token: HtmlTokenView) -> Seq<AttributeView> {
    match token {
        HtmlTokenView::StartTag { attributes, .. } => attributes,
        _ => Seq::empty(),
    }
}

/// Whether the token is a start tag that closes itself.
pub open spec fn closes_itself(token: HtmlTokenView) -> bool {
    match token {
        HtmlTokenView::StartTag { self_closing, .. } => self_closing,
        _ => false,
    }
}

/// What the builder does with a token before `html`, `head` or `body`,
/// where `kind` is the element that is due and `next_mode` the mode after
/// it: whitespace is passed over; the start tag of the element makes it;
/// any other token makes it too, without attributes, and is then
/// handled in the next mode.
pub open spec fn handle_before(
    p: ParserView,
    token: HtmlTokenView,
    kind: ElementKind,
    next_mode: InsertionMode,
) -> Handled {
    if is_whitespace_token(token) {
        ignore(p)
    } else if starts(token, kind) {
        Handled {
            parser: ParserView {
                mode: next_mode,
                ..insert_element(p, kind, attributes_of(token), closes_itself(token))
            },
            consumed: true,
        }
    } else {
        reprocess_in(insert_element(p, kind, Seq::empty(), false), next_mode)
    }
}

/// What the builder does with one token that is not `Eof`.
pub open spec fn handle(p: ParserView, token: HtmlTokenView) -> Handled {
    match p.mode {
        InsertionMode::Initial => if token is Char {
            ignore(p)
        } else {
            reprocess_in(p, InsertionMode::BeforeHtml)
        },
        InsertionMode::BeforeHtml => handle_before(
            p,
            token,
            ElementKind::Html,
            InsertionMode::BeforeHead,
        ),
        InsertionMode::BeforeHead => handle_before(
            p,
            token,
            ElementKind::Head,
            InsertionMode::InHead,
        ),
        InsertionMode::InHead => handle_in_head(p, token),
        InsertionMode::AfterHead => handle_before(
            p,
            token,
            ElementKind::Body,
            InsertionMode::InBody,
        ),
        InsertionMode::InBody => handle_in_body(p, token),
        InsertionMode::Text => handle_in_text(p, token),
        InsertionMode::InTable => reprocess_in(p, InsertionMode::InBody),
        InsertionMode::AfterBody => if token is Char {
            ignore(p)
        } else if token matches HtmlTokenView::EndTag { tag } && ElementKind::spec_from_str(tag)
            == Some(ElementKind::Html) {
            Handled { parser: ParserView { mode: InsertionMode::AfterAfterBody, ..p }, consumed: true }
        } else {
            reprocess_in(p, InsertionMode::InBody)
        },
        InsertionMode::AfterAfterBody => if token is Char {
            ignore(p)
        } else {
            reprocess_in(p, InsertionMode::InBody)
        },
    }
}

/// Orders the modes so that a token that is handled again is handled in
/// a lower mode.
pub open spec fn mode_rank(mode: InsertionMode) -> int {
    match mode {
        InsertionMode::Text => 9,
        InsertionMode::Initial => 8,
        InsertionMode::BeforeHtml => 7,
        InsertionMode::BeforeHead => 6,
        InsertionMode::InHead => 5,
        InsertionMode::AfterHead => 4,
        InsertionMode::AfterAfterBody => 3,
        InsertionMode::AfterBody => 2,
        InsertionMode::InTable => 1,
        InsertionMode::InBody => 0,
    }
}

/// Whether the token is one that the builder still has to handle.
pub open spec fn is_live(token: Option<HtmlTokenView>) -> bool {
    token is Some && token != Some(HtmlTokenView::Eof)
}

/// The builder when it has handled `token` and every token after it, up
/// to the end of the input.
pub open spec fn constructed(p: ParserView, token: Option<HtmlTokenView>) -> ParserView
    decreases
        (if is_live(token) {
            1int
        } else {
            0int
        }),
        remaining(p.tokenizer),
        p.tokenizer.buf.len(),
        rank(p.tokenizer.state),
        mode_rank(p.mode),
    via constructed_decreases
{
    if !is_live(token) || !p.wf() || p.tokenizer.finished {
        p
    } else {
        let h = handle(p, token->0);
        if h.consumed {
            constructed(
                ParserView { tokenizer: spec_next(h.parser.tokenizer).next, ..h.parser },
                spec_next(h.parser.tokenizer).token,
            )
        } else {
            constructed(h.parser, token)
        }
    }
}

#[via_fn]
proof fn constructed_decreases(p: ParserView, token: Option<HtmlTokenView>) {
    if is_live(token) && p.wf() && !p.tokenizer.finished {
        lemma_handle_progress(p, token->0);
        let h = handle(p, token->0);
        if h.consumed {
            lemma_next_progress(h.parser.tokenizer);
        }
    }
}

/// A token changes the tokenizer at most by putting it into script
/// data; a token that is handled again is handled in a lower mode.
pub proof fn lemma_handle_progress(p: ParserView, token: HtmlTokenView)
    requires
        p.wf(),
        !p.tokenizer.finished,
    ensures
        ({
            let h = handle(p, token);
            &&& h.parser.tokenizer == p.tokenizer || h.parser.tokenizer == (TokenizerView {
                state: State::ScriptData,
                ..p.tokenizer
            })
            &&& h.parser.original_insertion_mode != InsertionMode::Text
            &&& !h.consumed ==> h.parser.tokenizer == p.tokenizer && mode_rank(h.parser.mode)
                < mode_rank(p.mode)
        }),
{
}

/// The builder at the start: an empty document, no rules, no element
/// open, in the mode `Initial`.
pub open spec fn initial_parser(tokenizer: TokenizerView) -> ParserView {
    ParserView {
        nodes: seq![
            NodeView {
                window: true,
                ..crate::renderer::dom::node::lone_node(NodeKindView::Document)
            },
        ],
        rules: Seq::empty(),
        mode: InsertionMode::Initial,
        original_insertion_mode: InsertionMode::Initial,
        stack: Seq::empty(),
        tokenizer,
    }
}

#[derive(Debug)]
pub struct HtmlParser {
    window: Window,
    mode: InsertionMode,
    original_insertion_mode: InsertionMode,
    stack_of_open_elements: Vec<usize>,
    t: HtmlTokenizer,
}

impl View for HtmlParser {
    type V = ParserView;

    closed spec fn view(&self) -> ParserView {
        ParserView {
            nodes: self.window@.nodes,
            rules: self.window@.style.rules,
            mode: self.mode,
            original_insertion_mode: self.original_insertion_mode,
            stack: self.stack_of_open_elements@,
            tokenizer: self.t@,
        }
    }
}

impl HtmlParser {
    /// A builder that reads from `t`, with an empty document.
    pub fn new(t: HtmlTokenizer) -> (p: Self)
        ensures
            p@ == initial_parser(t@),
    {
        Self {
            window: Window::new(),
            mode: InsertionMode::Initial,
            original_insertion_mode: InsertionMode::Initial,
            stack_of_open_elements: Vec::new(),
            t,
        }
    }

    /// The node that takes the next child.
    fn current(&self) -> (n: usize)
        ensures
            n == current_node(self@),
    {
        let len = self.stack_of_open_elements.len();
        if len > 0 {
            self.stack_of_open_elements[len - 1]
        } else {
            self.window.document()
        }
    }

    fn insert_element(&mut self, kind: ElementKind, attributes: Vec<Attribute>, self_closing: bool)
        requires
            old(self)@.wf(),
        ensures
            final(self)@ == insert_element(
                old(self)@,
                kind,
                attributes_view(attributes@),
                self_closing,
            ),
            final(self)@.wf(),
    {
        let current = self.current();
        if current < self.window.len() && self.window.len() < usize::MAX {
            let ghost before = self@.nodes;
            let id = self.window.append_child(
                current,
                NodeKind::Element(Element::of_kind(kind, attributes)),
            );
            proof {
                lemma_with_child_shape(
                    before,
                    current,
                    NodeKindView::Element(
                        ElementView { kind, attributes: attributes_view(attributes@) },
                    ),
                );
            }
            if !self_closing {
                self.stack_of_open_elements.push(id);
            }
        }
    }

    fn insert_char(&mut self, c: char, verbatim: bool)
        requires
            old(self)@.wf(),
        ensures
            final(self)@ == insert_char(old(self)@, c, verbatim),
            final(self)@.wf(),
    {
        let current = self.current();
        if current >= self.window.len() {
            return ;
        }
        proof {
            assert(links_agree(self@.nodes, current as int));
        }
        match self.window.node(current).last_child() {
            Some(last) => {
                let is_text = match self.window.node(last).kind_ref() {
                    NodeKind::Text(_) => true,
                    _ => false,
                };
                if is_text {
                    self.window.append_text(last, c);
                    return ;
                }
            },
            None => {},
        }
        if (!verbatim && char_is_html_whitespace(c)) || self.window.len() == usize::MAX {
            return ;
        }
        let mut text = String::new();
        push_char(&mut text, c);
        assert(text@ =~= seq![c]);
        let ghost before = self@.nodes;
        self.window.append_child(current, NodeKind::Text(text));
        proof {
            lemma_with_child_shape(before, current, NodeKindView::Text(seq![c]));
        }
    }

    /// Whether node `n` is an element of kind `kind`.
    fn is_element(&self, n: usize, kind: ElementKind) -> (r: bool)
        ensures
            r == node_is(self@.nodes, n, kind),
    {
        match self.window.get(n) {
            Some(node) => node.element_kind() == Some(kind),
            None => false,
        }
    }

    /// Whether an element of kind `kind` is open.
    fn contain_in_stack(&self, element_kind: ElementKind) -> (r: bool)
        ensures
            r == in_stack(self@.nodes, self@.stack, element_kind),
    {
        let mut i: usize = 0;
        while i < self.stack_of_open_elements.len()
            invariant
                i <= self.stack_of_open_elements.len(),
                forall|j: int|
                    0 <= j < i ==> !node_is(self@.nodes, #[trigger] self@.stack[j], element_kind),
            decreases self.stack_of_open_elements.len() - i,
        {
            if self.is_element(self.stack_of_open_elements[i], element_kind) {
                return true;
            }
            i += 1;
        }
        false
    }

    /// Closes the open elements up to and with the innermost one of kind
    /// `kind`; does nothing where none is open.
    fn pop_until(&mut self, element_kind: ElementKind)
        requires
            old(self)@.wf(),
        ensures
            final(self)@ == pop_until(old(self)@, element_kind),
            final(self)@.wf(),
    {
        if !self.contain_in_stack(element_kind) {
            return ;
        }
        let ghost start = self@.stack;
        loop
            invariant_except_break
                popped(self@.nodes, self@.stack, element_kind) == popped(
                    self@.nodes,
                    start,
                    element_kind,
                ),
                in_stack(self@.nodes, self@.stack, element_kind),
            invariant
                self@ == (ParserView { stack: self@.stack, ..old(self)@ }),
                start == old(self)@.stack,
                in_stack(self@.nodes, start, element_kind),
                forall|i: int|
                    0 <= i < self@.stack.len() ==> (#[trigger] self@.stack[i]) < self@.nodes.len(),
                old(self)@.wf(),
            ensures
                self@ == pop_until(old(self)@, element_kind),
                self@.wf(),
            decreases self@.stack.len(),
        {
            let ghost before = self@.stack;
            let ghost nodes = self@.nodes;
            proof {
                let i = choose|i: int|
                    0 <= i < before.len() && node_is(nodes, #[trigger] before[i], element_kind);
                assert(before.len() > 0);
                if !node_is(nodes, before.last(), element_kind) {
                    assert(before.drop_last()[i] == before[i]);
                }
            }
            match self.stack_of_open_elements.pop() {
                Some(current) => {
                    assert(self@.stack =~= before.drop_last());
                    if self.is_element(current, element_kind) {
                        break ;
                    }
                },
                None => {
                    break ;
                },
            }
        }
    }

    /// The text of a `style` or `script` element.
    fn content(&self, n: usize) -> (s: String)
        ensures
            s@ == content_of(self@.nodes, n),
    {
        let node = match self.window.get(n) {
            Some(node) => node,
            None => {
                return String::new();
            },
        };
        let last = match node.last_child() {
            Some(last) => last,
            None => {
                return String::new();
            },
        };
        match self.window.get(last) {
            Some(node) => match node.kind_ref() {
                NodeKind::Text(s) => s.clone(),
                _ => String::new(),
            },
            None => String::new(),
        }
    }

    fn start_raw_text(&mut self, kind: ElementKind, attributes: Vec<Attribute>)
        requires
            old(self)@.wf(),
            old(self)@.mode != InsertionMode::Text,
        ensures
            final(self)@ == start_raw_text(old(self)@, kind, attributes_view(attributes@)).parser,
            final(self)@.wf(),
    {
        let mode = self.mode;
        self.insert_element(kind, attributes, false);
        self.original_insertion_mode = mode;
        self.mode = InsertionMode::Text;
        match kind {
            ElementKind::Script => {
                self.t.switch_context(State::ScriptData);
            },
            _ => {},
        }
    }

    fn handle_before(&mut self, token: &HtmlToken, kind: ElementKind, next_mode: InsertionMode) -> (consumed:
        bool)
        requires
            old(self)@.wf(),
        ensures
            final(self)@ == handle_before(old(self)@, token@, kind, next_mode).parser,
            consumed == handle_before(old(self)@, token@, kind, next_mode).consumed,
            final(self)@.wf(),
    {
        match token {
            HtmlToken::Char(c) => {
                if char_is_html_whitespace(*c) {
                    return true;
                }
            },
            HtmlToken::StartTag { tag, self_closing, attributes } => {
                match ElementKind::from_str(tag.as_str()) {
                    Ok(found) => {
                        if found == kind {
                            self.insert_element(kind, clone_attributes(attributes), *self_closing);
                            self.mode = next_mode;
                            return true;
                        }
                    },
                    Err(_) => {},
                }
            },
            _ => {},
        }
        let none: Vec<Attribute> = Vec::new();
        assert(attributes_view(none@) =~= Seq::empty());
        self.insert_element(kind, none, false);
        self.mode = next_mode;
        false
    }

    fn handle_in_head(&mut self, token: &HtmlToken) -> (consumed: bool)
        requires
            old(self)@.wf(),
            old(self)@.mode == InsertionMode::InHead,
        ensures
            final(self)@ == handle_in_head(old(self)@, token@).parser,
            consumed == handle_in_head(old(self)@, token@).consumed,
            final(self)@.wf(),
    {
        match token {
            HtmlToken::StartTag { tag, self_closing, attributes } => {
                match ElementKind::from_str(tag.as_str()) {
                    Ok(kind) => match kind {
                        ElementKind::Style | ElementKind::Script => {
                            if *self_closing {
                                self.insert_element(kind, clone_attributes(attributes), true);
                            } else {
                                self.start_raw_text(kind, clone_attributes(attributes));
                            }
                            true
                        },
                        _ => {
                            self.pop_until(ElementKind::Head);
                            self.mode = InsertionMode::AfterHead;
                            false
                        },
                    },
                    Err(_) => true,
                }
            },
            HtmlToken::EndTag { tag } => {
                match ElementKind::from_str(tag.as_str()) {
                    Ok(ElementKind::Head) => {
                        self.pop_until(ElementKind::Head);
                        self.mode = InsertionMode::AfterHead;
                    },
                    _ => {},
                }
                true
            },
            _ => true,
        }
    }

    fn handle_in_body(&mut self, token: &HtmlToken) -> (consumed: bool)
        requires
            old(self)@.wf(),
            old(self)@.mode == InsertionMode::InBody,
        ensures
            final(self)@ == handle_in_body(old(self)@, token@).parser,
            consumed == handle_in_body(old(self)@, token@).consumed,
            final(self)@.wf(),
    {
        match token {
            HtmlToken::StartTag { tag, self_closing, attributes } => {
                match ElementKind::from_str(tag.as_str()) {
                    Ok(kind) => match kind {
                        ElementKind::P | ElementKind::H1 | ElementKind::H2 | ElementKind::A => {
                            self.insert_element(kind, clone_attributes(attributes), *self_closing);
                        },
                        ElementKind::Style | ElementKind::Script => {
                            if *self_closing {
                                self.insert_element(kind, clone_attributes(attributes), true);
                            } else {
                                self.start_raw_text(kind, clone_attributes(attributes));
                            }
                        },
                        _ => {},
                    },
                    Err(_) => {},
                }
                true
            },
            HtmlToken::EndTag { tag } => {
                match ElementKind::from_str(tag.as_str()) {
                    Ok(kind) => match kind {
                        ElementKind::Body => {
                            self.pop_until(ElementKind::Body);
                            self.mode = InsertionMode::AfterBody;
                        },
                        ElementKind::Html => {
                            if self.contain_in_stack(ElementKind::Body) {
                                self.pop_until(ElementKind::Body);
                                self.mode = InsertionMode::AfterAfterBody;
                            }
                        },
                        ElementKind::P | ElementKind::H1 | ElementKind::H2 | ElementKind::A => {
                            self.pop_until(kind);
                        },
                        _ => {},
                    },
                    Err(_) => {},
                }
                true
            },
            HtmlToken::Char(c) => {
                self.insert_char(*c, false);
                true
            },
            HtmlToken::Eof => true,
        }
    }

    fn handle_in_text(&mut self, token: &HtmlToken) -> (consumed: bool)
        requires
            old(self)@.wf(),
        ensures
            final(self)@ == handle_in_text(old(self)@, token@).parser,
            consumed == handle_in_text(old(self)@, token@).consumed,
            final(self)@.wf(),
    {
        match token {
            HtmlToken::Char(c) => {
                self.insert_char(*c, true);
                return true;
            },
            HtmlToken::EndTag { tag } => {
                let current = self.current();
                if self.stack_of_open_elements.len() > 0 {
                    match ElementKind::from_str(tag.as_str()) {
                        Ok(ElementKind::Style) => {
                            if self.is_element(current, ElementKind::Style) {
                                let css = self.content(current);
                                let sheet = CssParser::new(CssTokenizer::new(css)).parse_stylesheet();
                                self.window.add_rules(sheet.rules);
                                let ghost before = self@.stack;
                                self.stack_of_open_elements.pop();
                                assert(self@.stack =~= before.drop_last());
                                self.mode = self.original_insertion_mode;
                                return true;
                            }
                        },
                        Ok(ElementKind::Script) => {
                            if self.is_element(current, ElementKind::Script) {
                                let ghost before = self@.stack;
                                self.stack_of_open_elements.pop();
                                assert(self@.stack =~= before.drop_last());
                                self.mode = self.original_insertion_mode;
                                return true;
                            }
                        },
                        _ => {},
                    }
                }
            },
            _ => {},
        }
        self.mode = self.original_insertion_mode;
        false
    }

    /// Handles one token that is not `Eof`; says whether it is used up.
    fn handle(&mut self, token: &HtmlToken) -> (consumed: bool)
        requires
            old(self)@.wf(),
        ensures
            final(self)@ == handle(old(self)@, token@).parser,
            consumed == handle(old(self)@, token@).consumed,
            final(self)@.wf(),
    {
        let is_char = match token {
            HtmlToken::Char(_) => true,
            _ => false,
        };
        match self.mode {
            InsertionMode::Initial => {
                if is_char {
                    true
                } else {
                    self.mode = InsertionMode::BeforeHtml;
                    false
                }
            },
            InsertionMode::BeforeHtml => self.handle_before(
                token,
                ElementKind::Html,
                InsertionMode::BeforeHead,
            ),
            InsertionMode::BeforeHead => self.handle_before(
                token,
                ElementKind::Head,
                InsertionMode::InHead,
            ),
            InsertionMode::InHead => self.handle_in_head(token),
            InsertionMode::AfterHead => self.handle_before(
                token,
                ElementKind::Body,
                InsertionMode::InBody,
            ),
            InsertionMode::InBody => self.handle_in_body(token),
            InsertionMode::Text => self.handle_in_text(token),
            InsertionMode::InTable => {
                self.mode = InsertionMode::InBody;
                false
            },
            InsertionMode::AfterBody => {
                if is_char {
                    return true;
                }
                match token {
                    HtmlToken::EndTag { tag } => {
                        match ElementKind::from_str(tag.as_str()) {
                            Ok(ElementKind::Html) => {
                                self.mode = InsertionMode::AfterAfterBody;
                                return true;
                            },
                            _ => {},
                        }
                    },
                    _ => {},
                }
                self.mode = InsertionMode::InBody;
                false
            },
            InsertionMode::AfterAfterBody => {
                if is_char {
                    true
                } else {
                    self.mode = InsertionMode::InBody;
                    false
                }
            },
        }
    }

    /// Reads the tokens to the end of the input and gives the window with
    /// the document that they describe.
    pub fn construct_tree(self) -> (window: Window)
        requires
            self@.wf(),
        ensures
            window.wf(),
            ({
                let first = spec_next(self@.tokenizer);
                let done = constructed(
                    ParserView { tokenizer: first.next, ..self@ },
                    first.token,
                );
                window@.nodes == done.nodes && window@.style.rules == done.rules
            }),
    {
        let mut parser = self;
        proof {
            if !parser@.tokenizer.finished {
                lemma_next_progress(parser@.tokenizer);
            }
        }
        let mut token = parser.t.next();
        let ghost goal = constructed(parser@, crate::renderer::html::token::token_view(token));
        loop
            invariant
                parser@.wf(),
                is_live(crate::renderer::html::token::token_view(token))
                    ==> !parser@.tokenizer.finished,
                constructed(parser@, crate::renderer::html::token::token_view(token)) == goal,
            ensures
                parser@.wf(),
                parser@ == goal,
            decreases
                    (if is_live(crate::renderer::html::token::token_view(token)) {
                        1int
                    } else {
                        0int
                    }),
                    remaining(parser@.tokenizer),
                    parser@.tokenizer.buf.len(),
                    rank(parser@.tokenizer.state),
                    mode_rank(parser@.mode),
        {
            let current = match &token {
                None => {
                    break ;
                },
                Some(HtmlToken::Eof) => {
                    break ;
                },
                Some(t) => t,
            };
            proof {
                lemma_handle_progress(parser@, current@);
            }
            if parser.handle(current) {
                proof {
                    lemma_next_progress(parser@.tokenizer);
                }
                token = parser.t.next();
            }
        }
        parser.window
    }
}

/// A new element keeps the builder well formed, and its tree is grown
/// from the tree before.
pub proof fn lemma_insert_element_grows(
    p: ParserView,
    kind: ElementKind,
    attributes: Seq<AttributeView>,
    self_closing: bool,
)
    requires
        p.wf(),
    ensures
        insert_element(p, kind, attributes, self_closing).wf(),
        grown_from(p.nodes, insert_element(p, kind, attributes, self_closing).nodes),
{
    lemma_grown_refl(p.nodes);
    if has_room(p) {
        let k = NodeKindView::Element(ElementView { kind, attributes });
        lemma_with_child_grows(p.nodes, current_node(p), k);
        lemma_with_child_shape(p.nodes, current_node(p), k);
    }
}

/// A new character keeps the builder well formed, and its tree is grown
/// from the tree before.
pub proof fn lemma_insert_char_grows(p: ParserView, c: char, verbatim: bool)
    requires
        p.wf(),
    ensures
        insert_char(p, c, verbatim).wf(),
        grown_from(p.nodes, insert_char(p, c, verbatim).nodes),
{
    lemma_grown_refl(p.nodes);
    let current = current_node(p);
    if current < p.nodes.len() {
        assert(links_agree(p.nodes, current as int));
        match p.nodes[current as int].last_child {
            Some(last) => {
                if text_of(p.nodes, last) is Some {
                    lemma_with_text_char_grows(p.nodes, last, c);
                }
            },
            None => {},
        }
        if has_room(p) {
            lemma_with_child_grows(p.nodes, current, NodeKindView::Text(seq![c]));
            lemma_with_child_shape(p.nodes, current, NodeKindView::Text(seq![c]));
        }
    }
}

/// What is left open after elements are closed was open before.
pub proof fn lemma_popped_is_prefix(nodes: Seq<NodeView>, stack: Seq<usize>, kind: ElementKind)
    ensures
        popped(nodes, stack, kind).len() <= stack.len(),
        forall|i: int|
            0 <= i < popped(nodes, stack, kind).len() ==> (#[trigger] popped(nodes, stack, kind)[i])
                == stack[i],
    decreases stack.len(),
{
    if stack.len() > 0 && !node_is(nodes, stack.last(), kind) {
        lemma_popped_is_prefix(nodes, stack.drop_last(), kind);
        let rest = popped(nodes, stack.drop_last(), kind);
        assert forall|i: int| 0 <= i < rest.len() implies (#[trigger] rest[i]) == stack[i] by {
            assert(stack.drop_last()[i] == stack[i]);
        }
    }
}

/// Whatever the token, the builder stays well formed and its tree is
/// grown from the tree before: nodes are added at the end of sibling
/// chains, and none is taken away or moved.
pub proof fn lemma_handle_grows(p: ParserView, token: HtmlTokenView)
    requires
        p.wf(),
    ensures
        handle(p, token).parser.wf(),
        grown_from(p.nodes, handle(p, token).parser.nodes),
{
    lemma_grown_refl(p.nodes);
    lemma_popped_is_prefix(p.nodes, p.stack, ElementKind::Head);
    lemma_popped_is_prefix(p.nodes, p.stack, ElementKind::Body);
    lemma_popped_is_prefix(p.nodes, p.stack, ElementKind::P);
    lemma_popped_is_prefix(p.nodes, p.stack, ElementKind::H1);
    lemma_popped_is_prefix(p.nodes, p.stack, ElementKind::H2);
    lemma_popped_is_prefix(p.nodes, p.stack, ElementKind::A);
    match token {
        HtmlTokenView::StartTag { tag, self_closing, attributes } => {
            lemma_insert_element_grows(p, ElementKind::Html, attributes, self_closing);
            lemma_insert_element_grows(p, ElementKind::Head, attributes, self_closing);
            lemma_insert_element_grows(p, ElementKind::Body, attributes, self_closing);
            match ElementKind::spec_from_str(tag) {
                Some(kind) => {
                    lemma_insert_element_grows(p, kind, attributes, self_closing);
                    lemma_insert_element_grows(p, kind, attributes, true);
                    lemma_insert_element_grows(p, kind, attributes, false);
                },
                None => {},
            }
        },
        HtmlTokenView::Char(c) => {
            lemma_insert_char_grows(p, c, true);
            lemma_insert_char_grows(p, c, false);
        },
        _ => {},
    }
    lemma_insert_element_grows(p, ElementKind::Html, Seq::empty(), false);
    lemma_insert_element_grows(p, ElementKind::Head, Seq::empty(), false);
    lemma_insert_element_grows(p, ElementKind::Body, Seq::empty(), false);
}

/// Document order is kept to the end: the builder stays well formed, and
/// the tree at the end of the input is grown from the tree at any
/// moment before. The children that a node has at some moment are its
/// first children at the end, in the same order, and those that come
/// later stand behind them.
pub proof fn lemma_constructed_grows(p: ParserView, token: Option<HtmlTokenView>)
    requires
        p.wf(),
    ensures
        constructed(p, token).wf(),
        grown_from(p.nodes, constructed(p, token).nodes),
    decreases
            (if is_live(token) {
                1int
            } else {
                0int
            }),
            remaining(p.tokenizer),
            p.tokenizer.buf.len(),
            rank(p.tokenizer.state),
            mode_rank(p.mode),
{
    lemma_grown_refl(p.nodes);
    if is_live(token) && !p.tokenizer.finished {
        lemma_handle_progress(p, token->0);
        lemma_handle_grows(p, token->0);
        let h = handle(p, token->0);
        if h.consumed {
            lemma_next_progress(h.parser.tokenizer);
            let q = ParserView { tokenizer: spec_next(h.parser.tokenizer).next, ..h.parser };
            lemma_constructed_grows(q, spec_next(h.parser.tokenizer).token);
            lemma_grown_trans(p.nodes, q.nodes, constructed(p, token).nodes);
        } else {
            lemma_constructed_grows(h.parser, token);
            lemma_grown_trans(p.nodes, h.parser.nodes, constructed(p, token).nodes);
        }
    }
}

} // verus!
