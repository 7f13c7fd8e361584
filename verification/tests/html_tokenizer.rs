use saba_core::renderer::html::attribute::Attribute;
use saba_core::renderer::html::token::HtmlToken;
use saba_core::renderer::html::token::HtmlTokenizer;
use saba_core::renderer::html::token::State;

fn all_tokens(html: &str) -> Vec<HtmlToken> {
    let mut t = HtmlTokenizer::new(html.to_string());
    let mut out = Vec::new();
    while let Some(tok) = t.next() {
        out.push(tok);
        assert!(out.len() <= html.len() + 2);
    }
    out
}

fn start(tag: &str, self_closing: bool, attrs: &[(&str, &str)]) -> HtmlToken {
    HtmlToken::StartTag {
        tag: tag.to_string(),
        self_closing,
        attributes: attrs
            .iter()
            .map(|(n, v)| Attribute::from_parts(n.to_string(), v.to_string()))
            .collect(),
    }
}

fn end(tag: &str) -> HtmlToken {
    HtmlToken::EndTag { tag: tag.to_string() }
}

#[test]
fn empty_input_gives_one_eof() {
    let mut t = HtmlTokenizer::new(String::new());
    assert_eq!(t.next(), Some(HtmlToken::Eof));
    assert_eq!(t.next(), None);
    assert_eq!(t.next(), None);
    assert!(t.is_finished());
}

#[test]
fn start_and_end_tag() {
    assert_eq!(
        all_tokens("<body></body>"),
        vec![start("body", false, &[]), end("body"), HtmlToken::Eof]
    );
}

#[test]
fn tag_names_are_lower_cased() {
    assert_eq!(all_tokens("<BoDy></H1>"), vec![start("body", false, &[]), end("h1"), HtmlToken::Eof]);
}

#[test]
fn attributes_in_all_forms() {
    assert_eq!(
        all_tokens("<p class=\"A\" id='B' foo=bar baz></p>"),
        vec![
            start("p", false, &[("class", "A"), ("id", "B"), ("foo", "bar"), ("baz", "")]),
            end("p"),
            HtmlToken::Eof
        ]
    );
}

#[test]
fn attribute_names_are_lower_cased_and_values_kept() {
    assert_eq!(
        all_tokens("<a HREF=\"X y\">"),
        vec![start("a", false, &[("href", "X y")]), HtmlToken::Eof]
    );
}

#[test]
fn duplicate_attribute_names_keep_the_first() {
    assert_eq!(
        all_tokens("<p id=a class=c id=b>"),
        vec![start("p", false, &[("id", "a"), ("class", "c")]), HtmlToken::Eof]
    );
}

#[test]
fn self_closing_tag() {
    assert_eq!(all_tokens("<img />"), vec![start("img", true, &[]), HtmlToken::Eof]);
    assert_eq!(all_tokens("<br/>"), vec![start("br", true, &[]), HtmlToken::Eof]);
}

#[test]
fn characters_between_tags() {
    assert_eq!(
        all_tokens("<p>hi</p>"),
        vec![
            start("p", false, &[]),
            HtmlToken::Char('h'),
            HtmlToken::Char('i'),
            end("p"),
            HtmlToken::Eof
        ]
    );
}

#[test]
fn less_than_before_a_non_letter_is_dropped() {
    assert_eq!(
        all_tokens("a<1"),
        vec![HtmlToken::Char('a'), HtmlToken::Char('1'), HtmlToken::Eof]
    );
}

#[test]
fn truncated_tag_ends_with_eof() {
    assert_eq!(all_tokens("<"), vec![HtmlToken::Eof]);
    assert_eq!(all_tokens("<p"), vec![HtmlToken::Eof]);
    assert_eq!(all_tokens("<p class=\"a"), vec![HtmlToken::Eof]);
    assert_eq!(all_tokens("x</"), vec![HtmlToken::Char('x'), HtmlToken::Eof]);
}

#[test]
fn script_data_is_given_as_characters() {
    let mut t = HtmlTokenizer::new("<script>a<b</p></SCRIPT>c".to_string());
    assert_eq!(t.next(), Some(start("script", false, &[])));
    t.switch_context(State::ScriptData);
    let mut out = Vec::new();
    while let Some(tok) = t.next() {
        out.push(tok);
    }
    let text: String = "a<b</p>".chars().collect();
    let mut expected: Vec<HtmlToken> = text.chars().map(HtmlToken::Char).collect();
    expected.push(end("script"));
    expected.push(HtmlToken::Char('c'));
    expected.push(HtmlToken::Eof);
    assert_eq!(out, expected);
}

#[test]
fn script_data_at_the_end_of_the_input() {
    let mut t = HtmlTokenizer::new("x</sc".to_string());
    t.switch_context(State::ScriptData);
    assert_eq!(t.next(), Some(HtmlToken::Char('x')));
    assert_eq!(t.next(), Some(HtmlToken::Eof));
    assert_eq!(t.next(), None);
}
