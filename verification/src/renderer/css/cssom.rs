//! The style sheet and the parser that builds it from CSS tokens.

use crate::renderer::css::token::css_token_view;
use crate::renderer::css::token::css_tokens;
use crate::renderer::css::token::lemma_css_tokens_len;
use crate::renderer::css::token::CssToken;
use crate::renderer::css::token::CssTokenView;
use crate::renderer::css::token::CssTokenizer;
use crate::utils::chars_of;
use crate::utils::string_of_range;
use vstd::prelude::*;

verus! {

pub type ComponentValue = CssToken;

/// What a [`Selector`] holds.
pub enum SelectorView {
    TypeSelector(Seq<char>),
    ClassSelector(Seq<char>),
    IdSelector(Seq<char>),
    UnknownSelector,
}

/// What a [`Declaration`] holds.
pub struct DeclarationView {
    pub property: Seq<char>,
    pub value: CssTokenView,
}

/// What a [`QualifiedRule`] holds.
pub struct RuleView {
    pub selector: SelectorView,
    pub declarations: Seq<DeclarationView>,
}

/// What a [`StyleSheet`] holds.
pub struct StyleSheetView {
    pub rules: Seq<RuleView>,
}

#[derive(Debug, PartialEq, Eq)]
pub enum Selector {
    TypeSelector(String),
    ClassSelector(String),
    IdSelector(String),
    /// What a selector that could not be parsed becomes. It selects nothing.
    UnknownSelector,
}

impl View for Selector {
    type V = SelectorView;

    open spec fn view(&self) -> SelectorView {
        match self {
            Selector::TypeSelector(s) => SelectorView::TypeSelector(s@),
            Selector::ClassSelector(s) => SelectorView::ClassSelector(s@),
            Selector::IdSelector(s) => SelectorView::IdSelector(s@),
            Selector::UnknownSelector => SelectorView::UnknownSelector,
        }
    }
}

impl Clone for Selector {
    fn clone(&self) -> (r: Self)
        ensures
            r@ == self@,
    {
        match self {
            Selector::TypeSelector(s) => Selector::TypeSelector(s.clone()),
            Selector::ClassSelector(s) => Selector::ClassSelector(s.clone()),
            Selector::IdSelector(s) => Selector::IdSelector(s.clone()),
            Selector::UnknownSelector => Selector::UnknownSelector,
        }
    }
}

#[derive(Debug, PartialEq, Eq)]
pub struct Declaration {
    pub property: String,
    pub value: ComponentValue,
}

impl View for Declaration {
    type V = DeclarationView;

    open spec fn view(&self) -> DeclarationView {
        DeclarationView { property: self.property@, value: self.value@ }
    }
}

impl Clone for Declaration {
    fn clone(&self) -> (r: Self)
        ensures
            r@ == self@,
    {
        Self { property: self.property.clone(), value: self.value.clone() }
    }
}

impl Declaration {
    /// A declaration with an empty property and an empty identifier as value.
    pub fn new() -> (d: Self)
        ensures
            d@ == (DeclarationView {
                property: Seq::empty(),
                value: CssTokenView::Ident(Seq::empty()),
            }),
    {
        Self { property: String::new(), value: CssToken::Ident(String::new()) }
    }

    pub fn set_property(&mut self, property: String)
        ensures
            final(self)@ == (DeclarationView { property: property@, value: old(self)@.value }),
    {
        self.property = property;
    }

    pub fn set_value(&mut self, value: ComponentValue)
        ensures
            final(self)@ == (DeclarationView { property: old(self)@.property, value: value@ }),
    {
        self.value = value;
    }
}

/// The views of a sequence of declarations, in the same order.
pub open spec fn declarations_view(ds: Seq<Declaration>) -> Seq<DeclarationView> {
    ds.map_values(|d: Declaration| d@)
}

/// A copy of a list of declarations.
pub fn clone_declarations(ds: &Vec<Declaration>) -> (out: Vec<Declaration>)
    ensures
        declarations_view(out@) == declarations_view(ds@),
{
    let mut out: Vec<Declaration> = Vec::new();
    let mut i: usize = 0;
    while i < ds.len()
        invariant
            i <= ds.len(),
            out.len() == i,
            forall|j: int| 0 <= j < i ==> out@[j]@ == ds@[j]@,
        decreases ds.len() - i,
    {
        out.push(ds[i].clone());
        i += 1;
    }
    assert(declarations_view(out@) =~= declarations_view(ds@));
    out
}

#[derive(Debug, PartialEq, Eq)]
pub struct QualifiedRule {
    pub selector: Selector,
    pub declarations: Vec<Declaration>,
}

impl View for QualifiedRule {
    type V = RuleView;

    open spec fn view(&self) -> RuleView {
        RuleView {
            selector: self.selector@,
            declarations: declarations_view(self.declarations@),
        }
    }
}

impl Clone for QualifiedRule {
    fn clone(&self) -> (r: Self)
        ensures
            r@ == self@,
    {
        Self {
            selector: self.selector.clone(),
            declarations: clone_declarations(&self.declarations),
        }
    }
}

impl QualifiedRule {
    /// A rule with the type selector of the empty name and no declarations.
    pub fn new() -> (r: Self)
        ensures
            r@ == (RuleView {
                selector: SelectorView::TypeSelector(Seq::empty()),
                declarations: Seq::empty(),
            }),
    {
        let r = Self { selector: Selector::TypeSelector(String::new()), declarations: Vec::new() };
        assert(declarations_view(r.declarations@) =~= Seq::empty());
        r
    }

    pub fn set_selector(&mut self, selector: Selector)
        ensures
            final(self)@ == (RuleView {
                selector: selector@,
                declarations: old(self)@.declarations,
            }),
    {
        self.selector = selector;
    }

    pub fn set_declarations(&mut self, declarations: Vec<Declaration>)
        ensures
            final(self)@ == (RuleView {
                selector: old(self)@.selector,
                declarations: declarations_view(declarations@),
            }),
    {
        self.declarations = declarations;
    }
}

/// The views of a sequence of rules, in the same order.
pub open spec fn rules_view(rs: Seq<QualifiedRule>) -> Seq<RuleView> {
    rs.map_values(|r: QualifiedRule| r@)
}

#[derive(Debug, PartialEq, Eq)]
pub struct StyleSheet {
    pub rules: Vec<QualifiedRule>,
}

impl View for StyleSheet {
    type V = StyleSheetView;

    open spec fn view(&self) -> StyleSheetView {
        StyleSheetView { rules: rules_view(self.rules@) }
    }
}

/// A copy of a list of rules.
pub fn clone_rules(rs: &Vec<QualifiedRule>) -> (out: Vec<QualifiedRule>)
    ensures
        rules_view(out@) == rules_view(rs@),
{
    let mut out: Vec<QualifiedRule> = Vec::new();
    let mut i: usize = 0;
    while i < rs.len()
        invariant
            i <= rs.len(),
            out.len() == i,
            forall|j: int| 0 <= j < i ==> out@[j]@ == rs@[j]@,
        decreases rs.len() - i,
    {
        out.push(rs[i].clone());
        i += 1;
    }
    assert(rules_view(out@) =~= rules_view(rs@));
    out
}

impl Clone for StyleSheet {
    fn clone(&self) -> (r: Self)
        ensures
            r@ == self@,
    {
        Self { rules: clone_rules(&self.rules) }
    }
}

impl StyleSheet {
    /// A style sheet without rules.
    pub fn new() -> (s: Self)
        ensures
            s@.rules == Seq::<RuleView>::empty(),
    {
        let s = Self { rules: Vec::new() };
        assert(rules_view(s.rules@) =~= Seq::empty());
        s
    }

    pub fn set_rules(&mut self, rules: Vec<QualifiedRule>)
        ensures
            final(self)@.rules == rules_view(rules@),
    {
        self.rules = rules;
    }
}

/// A parsed value and the tokens that follow it.
pub struct Parsed<T> {
    pub value: T,
    pub rest: Seq<CssTokenView>,
}

/// Whether `rest` is what remains of `ts` after some of its first tokens
/// are taken away.
pub open spec fn is_suffix_of(rest: Seq<CssTokenView>, ts: Seq<CssTokenView>) -> bool {
    rest.len() <= ts.len() && rest == ts.skip(ts.len() - rest.len())
}

/// `ts` without its first token, if it has one.
pub open spec fn drop_one(ts: Seq<CssTokenView>) -> Seq<CssTokenView> {
    if ts.len() > 0 {
        ts.skip(1)
    } else {
        ts
    }
}

/// `ts` from its first `{` on; empty where it has none.
pub open spec fn drop_until_open_curly(ts: Seq<CssTokenView>) -> Seq<CssTokenView>
    decreases ts.len(),
{
    if ts.len() == 0 || ts[0] is OpenCurly {
        ts
    } else {
        drop_until_open_curly(ts.skip(1))
    }
}

/// `ts` from its first `;` or `}` on; empty where it has neither.
pub open spec fn drop_until_declaration_end(ts: Seq<CssTokenView>) -> Seq<CssTokenView>
    decreases ts.len(),
{
    if ts.len() == 0 || ts[0] is SemiColon || ts[0] is CloseCurly {
        ts
    } else {
        drop_until_declaration_end(ts.skip(1))
    }
}

/// `ts` after the `}` that closes `depth` open blocks; empty where the
/// blocks are never closed.
pub open spec fn drop_block(ts: Seq<CssTokenView>, depth: nat) -> Seq<CssTokenView>
    decreases ts.len(),
{
    if depth == 0 || ts.len() == 0 {
        ts
    } else if ts[0] is OpenCurly {
        drop_block(ts.skip(1), depth + 1)
    } else if ts[0] is CloseCurly {
        drop_block(ts.skip(1), (depth - 1) as nat)
    } else {
        drop_block(ts.skip(1), depth)
    }
}

/// `ts`, which starts with an at-keyword, without the whole at-rule: the
/// tokens up to its `{` and the block, nested blocks included.
pub open spec fn drop_at_rule(ts: Seq<CssTokenView>) -> Seq<CssTokenView> {
    drop_block(drop_one(drop_until_open_curly(drop_one(ts))), 1)
}

/// A hash token's text without its leading `#`.
pub open spec fn without_hash(v: Seq<char>) -> Seq<char> {
    if v.len() > 0 {
        v.skip(1)
    } else {
        v
    }
}

/// One selector, read from the first token of `ts`.
///
/// A hash token gives an id selector. A dot gives a class selector with
/// the identifier behind it, and without one an unknown selector. An
/// identifier gives a type selector; where a colon follows, everything up
/// to the next `{` is dropped. An at-keyword gives an unknown selector
/// and drops everything up to the next `{`. Any other token gives an
/// unknown selector and takes the token behind it along.
pub open spec fn parse_selector(ts: Seq<CssTokenView>) -> Parsed<SelectorView>
    recommends
        ts.len() > 0,
{
    match ts[0] {
        CssTokenView::HashToken(v) => Parsed {
            value: SelectorView::IdSelector(without_hash(v)),
            rest: ts.skip(1),
        },
        CssTokenView::Delim(c) => if c == '.' {
            if ts.len() > 1 {
                match ts[1] {
                    CssTokenView::Ident(name) => Parsed {
                        value: SelectorView::ClassSelector(name),
                        rest: ts.skip(2),
                    },
                    _ => Parsed { value: SelectorView::UnknownSelector, rest: ts.skip(1) },
                }
            } else {
                Parsed { value: SelectorView::UnknownSelector, rest: ts.skip(1) }
            }
        } else {
            Parsed { value: SelectorView::UnknownSelector, rest: drop_one(ts.skip(1)) }
        },
        CssTokenView::Ident(v) => if ts.len() > 1 && ts[1] is Colon {
            Parsed {
                value: SelectorView::TypeSelector(v),
                rest: drop_until_open_curly(ts.skip(1)),
            }
        } else {
            Parsed { value: SelectorView::TypeSelector(v), rest: ts.skip(1) }
        },
        CssTokenView::AtKeyword(_) => Parsed {
            value: SelectorView::UnknownSelector,
            rest: drop_until_open_curly(ts.skip(1)),
        },
        _ => Parsed { value: SelectorView::UnknownSelector, rest: drop_one(ts.skip(1)) },
    }
}

/// The text of an identifier token; empty for any other token.
pub open spec fn ident_text(t: CssTokenView) -> Seq<char> {
    match t {
        CssTokenView::Ident(s) => s,
        _ => Seq::empty(),
    }
}

/// One declaration, read from `ts`, which starts with an identifier.
///
/// `property : value`, where the value is one token that is neither `;`
/// nor `}`, gives the declaration. Anything else is malformed: it gives
/// nothing, and the tokens up to the next `;` or `}` are dropped.
pub open spec fn parse_declaration(ts: Seq<CssTokenView>) -> Parsed<Option<DeclarationView>>
    recommends
        ts.len() > 0,
        ts[0] is Ident,
{
    if ts.len() >= 3 && ts[1] is Colon && !(ts[2] is SemiColon) && !(ts[2] is CloseCurly) {
        Parsed {
            value: Some(DeclarationView { property: ident_text(ts[0]), value: ts[2] }),
            rest: ts.skip(3),
        }
    } else {
        Parsed { value: None, rest: drop_until_declaration_end(ts.skip(1)) }
    }
}

/// The declarations of one block, read up to and with its `}`.
pub open spec fn parse_declarations(ts: Seq<CssTokenView>) -> Parsed<Seq<DeclarationView>>
    decreases ts.len(),
    via parse_declarations_decreases
{
    if ts.len() == 0 {
        Parsed { value: Seq::empty(), rest: ts }
    } else if ts[0] is CloseCurly {
        Parsed { value: Seq::empty(), rest: ts.skip(1) }
    } else if ts[0] is Ident {
        let more = parse_declarations(parse_declaration(ts).rest);
        Parsed {
            value: match parse_declaration(ts).value {
                Some(d) => seq![d] + more.value,
                None => more.value,
            },
            rest: more.rest,
        }
    } else {
        parse_declarations(ts.skip(1))
    }
}

#[via_fn]
proof fn parse_declarations_decreases(ts: Seq<CssTokenView>) {
    if ts.len() > 0 {
        lemma_parse_declaration_rest(ts);
    }
}

/// One rule, read from `ts`: selectors up to `{`, of which the last one
/// counts, then the declarations of the block. `selector` is the one read
/// last. `None` where the input ends before `{`.
pub open spec fn parse_rule_from(ts: Seq<CssTokenView>, selector: SelectorView) -> Option<
    Parsed<RuleView>,
>
    decreases ts.len(),
    via parse_rule_from_decreases
{
    if ts.len() == 0 {
        None
    } else if ts[0] is OpenCurly {
        Some(
            Parsed {
                value: RuleView {
                    selector,
                    declarations: parse_declarations(ts.skip(1)).value,
                },
                rest: parse_declarations(ts.skip(1)).rest,
            },
        )
    } else {
        parse_rule_from(parse_selector(ts).rest, parse_selector(ts).value)
    }
}

#[via_fn]
proof fn parse_rule_from_decreases(ts: Seq<CssTokenView>, selector: SelectorView) {
    if ts.len() > 0 {
        lemma_parse_selector_rest(ts);
    }
}

/// One qualified rule, read from `ts`.
pub open spec fn parse_qualified_rule(ts: Seq<CssTokenView>) -> Option<Parsed<RuleView>> {
    parse_rule_from(ts, SelectorView::TypeSelector(Seq::empty()))
}

/// The rules of a style sheet, in the order in which they are written.
/// An at-rule is dropped whole. A rule that the end of the input cuts off
/// is dropped too.
pub open spec fn parse_rules(ts: Seq<CssTokenView>) -> Seq<RuleView>
    decreases ts.len(),
    via parse_rules_decreases
{
    if ts.len() == 0 {
        Seq::empty()
    } else if ts[0] is AtKeyword {
        parse_rules(drop_at_rule(ts))
    } else {
        match parse_qualified_rule(ts) {
            Some(p) => seq![p.value] + parse_rules(p.rest),
            None => Seq::empty(),
        }
    }
}

#[via_fn]
proof fn parse_rules_decreases(ts: Seq<CssTokenView>) {
    if ts.len() > 0 {
        lemma_drop_at_rule(ts);
        lemma_parse_rule_from_rest(ts, SelectorView::TypeSelector(Seq::empty()));
    }
}

/// A suffix of a suffix is a suffix.
pub proof fn lemma_suffix_trans(
    a: Seq<CssTokenView>,
    b: Seq<CssTokenView>,
    c: Seq<CssTokenView>,
)
    requires
        is_suffix_of(a, b),
        is_suffix_of(b, c),
    ensures
        is_suffix_of(a, c),
{
    assert(a =~= c.skip(c.len() - a.len()));
}

/// Dropping the first `n` tokens leaves a suffix.
pub proof fn lemma_skip_is_suffix(ts: Seq<CssTokenView>, n: int)
    requires
        0 <= n <= ts.len(),
    ensures
        is_suffix_of(ts.skip(n), ts),
{
}

pub proof fn lemma_drop_until_open_curly(ts: Seq<CssTokenView>)
    ensures
        is_suffix_of(drop_until_open_curly(ts), ts),
        drop_until_open_curly(ts).len() > 0 ==> drop_until_open_curly(ts)[0] is OpenCurly,
    decreases ts.len(),
{
    if ts.len() == 0 || ts[0] is OpenCurly {
        assert(ts =~= ts.skip(0));
    } else {
        lemma_drop_until_open_curly(ts.skip(1));
        lemma_skip_is_suffix(ts, 1);
        lemma_suffix_trans(drop_until_open_curly(ts.skip(1)), ts.skip(1), ts);
    }
}

pub proof fn lemma_drop_until_declaration_end(ts: Seq<CssTokenView>)
    ensures
        is_suffix_of(drop_until_declaration_end(ts), ts),
    decreases ts.len(),
{
    if ts.len() == 0 || ts[0] is SemiColon || ts[0] is CloseCurly {
        assert(ts =~= ts.skip(0));
    } else {
        lemma_drop_until_declaration_end(ts.skip(1));
        lemma_skip_is_suffix(ts, 1);
        lemma_suffix_trans(drop_until_declaration_end(ts.skip(1)), ts.skip(1), ts);
    }
}

pub proof fn lemma_drop_block(ts: Seq<CssTokenView>, depth: nat)
    ensures
        is_suffix_of(drop_block(ts, depth), ts),
    decreases ts.len(),
{
    if depth == 0 || ts.len() == 0 {
        assert(ts =~= ts.skip(0));
    } else {
        let d: nat = if ts[0] is OpenCurly {
            depth + 1
        } else if ts[0] is CloseCurly {
            (depth - 1) as nat
        } else {
            depth
        };
        lemma_drop_block(ts.skip(1), d);
        lemma_skip_is_suffix(ts, 1);
        lemma_suffix_trans(drop_block(ts.skip(1), d), ts.skip(1), ts);
    }
}

pub proof fn lemma_drop_one(ts: Seq<CssTokenView>)
    ensures
        is_suffix_of(drop_one(ts), ts),
        ts.len() > 0 ==> drop_one(ts).len() < ts.len(),
{
    assert(ts =~= ts.skip(0));
}

/// What follows an at-rule is a strictly shorter suffix.
pub proof fn lemma_drop_at_rule(ts: Seq<CssTokenView>)
    requires
        ts.len() > 0,
    ensures
        is_suffix_of(drop_at_rule(ts), ts),
        drop_at_rule(ts).len() < ts.len(),
{
    let a = drop_one(ts);
    let b = drop_until_open_curly(a);
    let c = drop_one(b);
    let d = drop_block(c, 1);
    lemma_drop_one(ts);
    lemma_drop_until_open_curly(a);
    lemma_drop_one(b);
    lemma_drop_block(c, 1);
    lemma_suffix_trans(b, a, ts);
    lemma_suffix_trans(c, b, ts);
    lemma_suffix_trans(d, c, ts);
}

/// What follows a selector is a strictly shorter suffix.
pub proof fn lemma_parse_selector_rest(ts: Seq<CssTokenView>)
    requires
        ts.len() > 0,
    ensures
        is_suffix_of(parse_selector(ts).rest, ts),
        parse_selector(ts).rest.len() < ts.len(),
{
    lemma_skip_is_suffix(ts, 1);
    if ts.len() > 1 {
        lemma_skip_is_suffix(ts, 2);
    }
    lemma_drop_until_open_curly(ts.skip(1));
    lemma_drop_one(ts.skip(1));
    lemma_suffix_trans(drop_until_open_curly(ts.skip(1)), ts.skip(1), ts);
    lemma_suffix_trans(drop_one(ts.skip(1)), ts.skip(1), ts);
}

/// What follows a declaration is a strictly shorter suffix.
pub proof fn lemma_parse_declaration_rest(ts: Seq<CssTokenView>)
    requires
        ts.len() > 0,
    ensures
        is_suffix_of(parse_declaration(ts).rest, ts),
        parse_declaration(ts).rest.len() < ts.len(),
{
    lemma_skip_is_suffix(ts, 1);
    if ts.len() >= 3 {
        lemma_skip_is_suffix(ts, 3);
    }
    lemma_drop_until_declaration_end(ts.skip(1));
    lemma_suffix_trans(drop_until_declaration_end(ts.skip(1)), ts.skip(1), ts);
}

/// What follows a block of declarations is a suffix.
pub proof fn lemma_parse_declarations_rest(ts: Seq<CssTokenView>)
    ensures
        is_suffix_of(parse_declarations(ts).rest, ts),
    decreases ts.len(),
{
    if ts.len() == 0 {
        assert(ts =~= ts.skip(0));
    } else if ts[0] is CloseCurly {
        lemma_skip_is_suffix(ts, 1);
    } else if ts[0] is Ident {
        lemma_parse_declaration_rest(ts);
        lemma_parse_declarations_rest(parse_declaration(ts).rest);
        lemma_suffix_trans(
            parse_declarations(parse_declaration(ts).rest).rest,
            parse_declaration(ts).rest,
            ts,
        );
    } else {
        lemma_parse_declarations_rest(ts.skip(1));
        lemma_skip_is_suffix(ts, 1);
        lemma_suffix_trans(parse_declarations(ts.skip(1)).rest, ts.skip(1), ts);
    }
}

/// What follows a rule is a strictly shorter suffix.
pub proof fn lemma_parse_rule_from_rest(ts: Seq<CssTokenView>, selector: SelectorView)
    ensures
        parse_rule_from(ts, selector) matches Some(p) ==> is_suffix_of(p.rest, ts) && p.rest.len()
            < ts.len(),
    decreases ts.len(),
{
    if ts.len() == 0 {
    } else if ts[0] is OpenCurly {
        lemma_parse_declarations_rest(ts.skip(1));
        lemma_skip_is_suffix(ts, 1);
        lemma_suffix_trans(parse_declarations(ts.skip(1)).rest, ts.skip(1), ts);
    } else {
        lemma_parse_selector_rest(ts);
        lemma_parse_rule_from_rest(parse_selector(ts).rest, parse_selector(ts).value);
        match parse_rule_from(ts, selector) {
            Some(p) => {
                lemma_suffix_trans(p.rest, parse_selector(ts).rest, ts);
            },
            None => {},
        }
    }
}

/// The text of a hash token without its leading `#`.
fn strip_hash(value: &String) -> (name: String)
    ensures
        name@ == without_hash(value@),
{
    let chars = chars_of(value.as_str());
    if chars.len() > 0 {
        string_of_range(&chars, 1, chars.len())
    } else {
        String::new()
    }
}

#[derive(Debug)]
pub struct CssParser {
    t: CssTokenizer,
    /// The token that the next read gives; `None` once the tokenizer has
    /// given its last.
    lookahead: Option<CssToken>,
}

impl CssParser {
    /// The tokens that this parser has still to read.
    pub closed spec fn tokens(&self) -> Seq<CssTokenView> {
        match self.lookahead {
            Some(t) => seq![t@] + css_tokens(self.t@.input, self.t@.pos),
            None => Seq::empty(),
        }
    }

    /// A parser that reads what `t` has still to give.
    pub fn new(t: CssTokenizer) -> (p: Self)
        ensures
            p.tokens() == css_tokens(t@.input, t@.pos),
    {
        let mut t = t;
        let lookahead = t.next();
        Self { t, lookahead }
    }

    /// Takes the first of the remaining tokens.
    fn advance(&mut self) -> (r: Option<CssToken>)
        ensures
            old(self).tokens().len() == 0 ==> r is None && final(self).tokens() == old(
                self,
            ).tokens(),
            old(self).tokens().len() > 0 ==> css_token_view(r) == Some(old(self).tokens()[0])
                && final(self).tokens() == old(self).tokens().skip(1),
    {
        match self.lookahead.take() {
            None => None,
            Some(current) => {
                let ghost before = self.t@;
                self.lookahead = self.t.next();
                assert(self.tokens() =~= css_tokens(before.input, before.pos));
                assert(old(self).tokens().skip(1) =~= css_tokens(before.input, before.pos));
                Some(current)
            },
        }
    }

    /// Drops tokens until the next is `{` or none is left.
    fn skip_until_open_curly(&mut self)
        ensures
            final(self).tokens() == drop_until_open_curly(old(self).tokens()),
    {
        loop
            invariant
                drop_until_open_curly(self.tokens()) == drop_until_open_curly(old(self).tokens()),
            decreases self.tokens().len(),
        {
            match &self.lookahead {
                None => {
                    return ;
                },
                Some(CssToken::OpenCurly) => {
                    return ;
                },
                _ => {},
            }
            self.advance();
        }
    }

    /// Drops tokens until the next is `;` or `}` or none is left.
    fn skip_until_declaration_end(&mut self)
        ensures
            final(self).tokens() == drop_until_declaration_end(old(self).tokens()),
    {
        loop
            invariant
                drop_until_declaration_end(self.tokens()) == drop_until_declaration_end(
                    old(self).tokens(),
                ),
            decreases self.tokens().len(),
        {
            match &self.lookahead {
                None => {
                    return ;
                },
                Some(CssToken::SemiColon) => {
                    return ;
                },
                Some(CssToken::CloseCurly) => {
                    return ;
                },
                _ => {},
            }
            self.advance();
        }
    }

    /// Drops an at-rule: everything up to its `{`, and the block with the
    /// blocks nested in it.
    fn skip_at_rule(&mut self)
        ensures
            final(self).tokens() == drop_at_rule(old(self).tokens()),
    {
        self.advance();
        self.skip_until_open_curly();
        self.advance();
        proof {
            self.lemma_tokens_len();
        }
        let mut depth: u128 = 1;
        loop
            invariant
                drop_block(self.tokens(), depth as nat) == drop_at_rule(old(self).tokens()),
                depth + self.tokens().len() <= usize::MAX + 2,
            decreases self.tokens().len(),
        {
            if depth == 0 {
                return ;
            }
            match &self.lookahead {
                None => {
                    return ;
                },
                Some(CssToken::OpenCurly) => {
                    depth = depth + 1;
                },
                Some(CssToken::CloseCurly) => {
                    depth = depth - 1;
                },
                _ => {},
            }
            self.advance();
        }
    }

    /// Reads one selector. At least one token is left to read.
    fn consume_selector(&mut self) -> (selector: Selector)
        requires
            old(self).tokens().len() > 0,
        ensures
            selector@ == parse_selector(old(self).tokens()).value,
            final(self).tokens() == parse_selector(old(self).tokens()).rest,
    {
        let ghost ts = self.tokens();
        let token = match self.advance() {
            Some(t) => t,
            None => {
                return Selector::UnknownSelector;
            },
        };
        match token {
            CssToken::HashToken(value) => Selector::IdSelector(strip_hash(&value)),
            CssToken::Delim(delim) => {
                if delim == '.' {
                    match &self.lookahead {
                        Some(CssToken::Ident(name)) => {
                            let name = name.clone();
                            self.advance();
                            assert(ts.skip(1).skip(1) =~= ts.skip(2));
                            Selector::ClassSelector(name)
                        },
                        _ => Selector::UnknownSelector,
                    }
                } else {
                    self.advance();
                    Selector::UnknownSelector
                }
            },
            CssToken::Ident(ident) => {
                match &self.lookahead {
                    Some(CssToken::Colon) => {
                        self.skip_until_open_curly();
                    },
                    _ => {},
                }
                Selector::TypeSelector(ident)
            },
            CssToken::AtKeyword(_keyword) => {
                self.skip_until_open_curly();
                Selector::UnknownSelector
            },
            _ => {
                self.advance();
                Selector::UnknownSelector
            },
        }
    }

    /// Reads one declaration. The next token is an identifier.
    fn consume_declaration(&mut self) -> (declaration: Option<Declaration>)
        requires
            old(self).tokens().len() > 0,
            old(self).tokens()[0] is Ident,
        ensures
            match declaration {
                Some(d) => Some(d@),
                None => None,
            } == parse_declaration(old(self).tokens()).value,
            final(self).tokens() == parse_declaration(old(self).tokens()).rest,
    {
        let ghost ts = self.tokens();
        let property = match self.advance() {
            Some(CssToken::Ident(ident)) => ident,
            _ => {
                return None;
            },
        };
        match &self.lookahead {
            Some(CssToken::Colon) => {},
            _ => {
                self.skip_until_declaration_end();
                return None;
            },
        }
        self.advance();
        match &self.lookahead {
            None => {
                proof {
                    reveal_with_fuel(drop_until_declaration_end, 2);
                }
                return None;
            },
            Some(CssToken::SemiColon) => {
                proof {
                    reveal_with_fuel(drop_until_declaration_end, 2);
                }
                return None;
            },
            Some(CssToken::CloseCurly) => {
                proof {
                    reveal_with_fuel(drop_until_declaration_end, 2);
                }
                return None;
            },
            _ => {},
        }
        let value = match self.consume_component_value() {
            Some(v) => v,
            None => {
                return None;
            },
        };
        assert(ts.skip(1).skip(1).skip(1) =~= ts.skip(3));
        let mut declaration = Declaration::new();
        declaration.set_property(property);
        declaration.set_value(value);
        Some(declaration)
    }

    /// Reads one token as a value.
    fn consume_component_value(&mut self) -> (value: Option<ComponentValue>)
        ensures
            old(self).tokens().len() == 0 ==> value is None && final(self).tokens() == old(
                self,
            ).tokens(),
            old(self).tokens().len() > 0 ==> css_token_view(value) == Some(old(self).tokens()[0])
                && final(self).tokens() == old(self).tokens().skip(1),
    {
        self.advance()
    }

    /// Reads the declarations of a block, up to and with its `}`.
    fn consume_list_of_declarations(&mut self) -> (declarations: Vec<Declaration>)
        ensures
            declarations_view(declarations@) == parse_declarations(old(self).tokens()).value,
            final(self).tokens() == parse_declarations(old(self).tokens()).rest,
    {
        let mut declarations: Vec<Declaration> = Vec::new();
        assert(declarations_view(declarations@) =~= Seq::empty());
        loop
            invariant
                parse_declarations(old(self).tokens()).value == declarations_view(declarations@)
                    + parse_declarations(self.tokens()).value,
                parse_declarations(old(self).tokens()).rest == parse_declarations(
                    self.tokens(),
                ).rest,
            decreases self.tokens().len(),
        {
            let ghost ts = self.tokens();
            let ghost before = declarations_view(declarations@);
            match &self.lookahead {
                None => {
                    assert(before + Seq::<DeclarationView>::empty() =~= before);
                    return declarations;
                },
                Some(CssToken::CloseCurly) => {
                    self.advance();
                    assert(before + Seq::<DeclarationView>::empty() =~= before);
                    return declarations;
                },
                Some(CssToken::Ident(_ident)) => {
                    proof {
                        lemma_parse_declaration_rest(ts);
                    }
                    match self.consume_declaration() {
                        Some(declaration) => {
                            declarations.push(declaration);
                            assert(declarations_view(declarations@) =~= before.push(
                                parse_declaration(ts).value->0,
                            ));
                            assert(before + (seq![parse_declaration(ts).value->0]
                                + parse_declarations(self.tokens()).value) =~= before.push(
                                parse_declaration(ts).value->0,
                            ) + parse_declarations(self.tokens()).value);
                        },
                        None => {},
                    }
                },
                _ => {
                    self.advance();
                },
            }
        }
    }

    /// Reads one rule: selectors up to `{`, then the block. `None` where
    /// the input ends before `{`.
    fn consume_qualified_rule(&mut self) -> (rule: Option<QualifiedRule>)
        ensures
            match parse_qualified_rule(old(self).tokens()) {
                Some(p) => rule matches Some(r) && r@ == p.value && final(self).tokens() == p.rest,
                None => rule is None && final(self).tokens().len() == 0,
            },
    {
        let mut rule = QualifiedRule::new();
        loop
            invariant
                rule@.declarations == Seq::<DeclarationView>::empty(),
                parse_rule_from(self.tokens(), rule@.selector) == parse_qualified_rule(
                    old(self).tokens(),
                ),
            decreases self.tokens().len(),
        {
            match &self.lookahead {
                None => {
                    return None;
                },
                Some(CssToken::OpenCurly) => {
                    self.advance();
                    rule.set_declarations(self.consume_list_of_declarations());
                    return Some(rule);
                },
                _ => {
                    proof {
                        lemma_parse_selector_rest(self.tokens());
                    }
                    rule.set_selector(self.consume_selector());
                },
            }
        }
    }

    /// Reads rules to the end of the input. At-rules are dropped.
    fn consume_list_of_rules(&mut self) -> (rules: Vec<QualifiedRule>)
        ensures
            rules_view(rules@) == parse_rules(old(self).tokens()),
            final(self).tokens().len() == 0,
    {
        let mut rules: Vec<QualifiedRule> = Vec::new();
        assert(rules_view(rules@) =~= Seq::empty());
        loop
            invariant
                parse_rules(old(self).tokens()) == rules_view(rules@) + parse_rules(self.tokens()),
            decreases self.tokens().len(),
        {
            let ghost ts = self.tokens();
            let ghost before = rules_view(rules@);
            match &self.lookahead {
                None => {
                    assert(before + Seq::<RuleView>::empty() =~= before);
                    return rules;
                },
                Some(CssToken::AtKeyword(_keyword)) => {
                    proof {
                        lemma_drop_at_rule(ts);
                    }
                    self.skip_at_rule();
                },
                _ => {
                    proof {
                        lemma_parse_rule_from_rest(ts, SelectorView::TypeSelector(Seq::empty()));
                    }
                    match self.consume_qualified_rule() {
                        Some(rule) => {
                            rules.push(rule);
                            let ghost r = parse_qualified_rule(ts)->0.value;
                            assert(rules_view(rules@) =~= before.push(r));
                            assert(before + (seq![r] + parse_rules(self.tokens())) =~= before.push(
                                r,
                            ) + parse_rules(self.tokens()));
                        },
                        None => {
                            assert(before + Seq::<RuleView>::empty() =~= before);
                            return rules;
                        },
                    }
                },
            }
        }
    }

    /// Parses what is left of the input into a style sheet. Its rules
    /// stand in the order in which they are written.
    pub fn parse_stylesheet(&mut self) -> (sheet: StyleSheet)
        ensures
            sheet@.rules == parse_rules(old(self).tokens()),
            final(self).tokens().len() == 0,
    {
        let mut sheet = StyleSheet::new();
        sheet.set_rules(self.consume_list_of_rules());
        sheet
    }

    /// There are no more tokens to read than the input has characters,
    /// but for the one that is already in hand.
    proof fn lemma_tokens_len(&self)
        ensures
            self.tokens().len() <= usize::MAX + 1,
    {
        lemma_css_tokens_len(self.t@.input, self.t@.pos);
        self.t.lemma_input_fits();
    }
}

} // verus!
