use saba_core::renderer::css::cssom::CssParser;
use saba_core::renderer::css::cssom::Declaration;
use saba_core::renderer::css::cssom::QualifiedRule;
use saba_core::renderer::css::cssom::Selector;
use saba_core::renderer::css::cssom::StyleSheet;
use saba_core::renderer::css::token::CssToken;
use saba_core::renderer::css::token::CssTokenizer;

fn tokens(css: &str) -> Vec<CssToken> {
    let mut t = CssTokenizer::new(css.to_string());
    let mut out = Vec::new();
    while let Some(tok) = t.next() {
        out.push(tok);
        assert!(out.len() <= css.len());
    }
    out
}

fn parse(css: &str) -> StyleSheet {
    CssParser::new(CssTokenizer::new(css.to_string())).parse_stylesheet()
}

fn ident(s: &str) -> CssToken {
    CssToken::Ident(s.to_string())
}

fn decl(property: &str, value: CssToken) -> Declaration {
    let mut d = Declaration::new();
    d.set_property(property.to_string());
    d.set_value(value);
    d
}

fn rule(selector: Selector, declarations: Vec<Declaration>) -> QualifiedRule {
    let mut r = QualifiedRule::new();
    r.set_selector(selector);
    r.set_declarations(declarations);
    r
}

#[test]
fn css_empty() {
    assert_eq!(tokens(""), vec![]);
    assert_eq!(tokens("  \n "), vec![]);
    assert_eq!(parse("").rules, vec![]);
}

#[test]
fn css_one_rule_tokens() {
    assert_eq!(
        tokens("p { color: red; }"),
        vec![
            ident("p"),
            CssToken::OpenCurly,
            ident("color"),
            CssToken::Colon,
            ident("red"),
            CssToken::SemiColon,
            CssToken::CloseCurly
        ]
    );
}

#[test]
fn css_id_and_class_tokens() {
    assert_eq!(
        tokens("#id.class"),
        vec![CssToken::HashToken("#id".to_string()), CssToken::Delim('.'), ident("class")]
    );
}

#[test]
fn css_other_tokens() {
    assert_eq!(
        tokens("a(1.5,\"x y\" 'z') -b @m @ >"),
        vec![
            ident("a"),
            CssToken::OpenParenthesis,
            CssToken::Number("1.5".to_string()),
            CssToken::Delim(','),
            CssToken::StringToken("x y".to_string()),
            CssToken::StringToken("z".to_string()),
            CssToken::CloseParenthesis,
            ident("-b"),
            CssToken::AtKeyword("m".to_string()),
            CssToken::Delim('@'),
            CssToken::Delim('>'),
        ]
    );
}

#[test]
fn css_unclosed_string() {
    assert_eq!(tokens("\"abc"), vec![CssToken::StringToken("abc".to_string())]);
}

#[test]
fn css_type_selector() {
    assert_eq!(
        parse("p { color: red; }").rules,
        vec![rule(Selector::TypeSelector("p".to_string()), vec![decl("color", ident("red"))])]
    );
}

#[test]
fn css_id_selector() {
    assert_eq!(
        parse("#id { color: red; }").rules,
        vec![rule(Selector::IdSelector("id".to_string()), vec![decl("color", ident("red"))])]
    );
}

#[test]
fn css_class_selector() {
    assert_eq!(
        parse(".class { color: red; }").rules,
        vec![rule(Selector::ClassSelector("class".to_string()), vec![decl("color", ident("red"))])]
    );
}

#[test]
fn css_multiple_rules_in_source_order() {
    let sheet = parse("p { content: \"Hey\"; } h1 { font-size: 40; color: blue; }");
    assert_eq!(
        sheet.rules,
        vec![
            rule(
                Selector::TypeSelector("p".to_string()),
                vec![decl("content", CssToken::StringToken("Hey".to_string()))]
            ),
            rule(
                Selector::TypeSelector("h1".to_string()),
                vec![
                    decl("font-size", CssToken::Number("40".to_string())),
                    decl("color", ident("blue"))
                ]
            ),
        ]
    );
}

#[test]
fn css_at_rule_is_dropped_whole() {
    assert_eq!(
        parse("@media print { p {color:red} } p{color:blue}").rules,
        vec![rule(Selector::TypeSelector("p".to_string()), vec![decl("color", ident("blue"))])]
    );
}

#[test]
fn css_pseudo_class_is_absorbed() {
    assert_eq!(
        parse("a:hover { color: red }").rules,
        vec![rule(Selector::TypeSelector("a".to_string()), vec![decl("color", ident("red"))])]
    );
}

#[test]
fn css_malformed_declaration_is_skipped() {
    assert_eq!(
        parse("p { color red blue: x; display: none; } ").rules,
        vec![rule(Selector::TypeSelector("p".to_string()), vec![decl("display", ident("none"))])]
    );
    assert_eq!(
        parse("p { color: ; display: none }").rules,
        vec![rule(Selector::TypeSelector("p".to_string()), vec![decl("display", ident("none"))])]
    );
    assert_eq!(
        parse("p { color }").rules,
        vec![rule(Selector::TypeSelector("p".to_string()), vec![])]
    );
}

#[test]
fn css_unknown_selector() {
    assert_eq!(
        parse("p > a { color: red } . { color: red }").rules,
        vec![
            rule(Selector::UnknownSelector, vec![decl("color", ident("red"))]),
            rule(Selector::UnknownSelector, vec![decl("color", ident("red"))])
        ]
    );
}

#[test]
fn css_rule_cut_off_by_the_end_is_dropped() {
    assert_eq!(parse("p").rules, vec![]);
    assert_eq!(
        parse("p { color: red").rules,
        vec![rule(Selector::TypeSelector("p".to_string()), vec![decl("color", ident("red"))])]
    );
}
