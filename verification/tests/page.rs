use saba_core::display_item::DisplayItem;
use saba_core::renderer::js::token::JsLexer;
use saba_core::renderer::js::token::Token;
use saba_core::renderer::layout::layout_object::LayoutPoint;
use saba_core::renderer::page::render;

#[test]
fn render_of_nothing_is_empty() {
    assert_eq!(render(String::new()), vec![]);
    assert_eq!(render("just text".to_string()), vec![]);
}

#[test]
fn render_gives_rects_and_texts() {
    let items = render("<html><head></head><body><h1>hi</h1></body></html>".to_string());
    assert_eq!(items.len(), 3);
    assert!(matches!(items[0], DisplayItem::Rect { .. }));
    assert!(matches!(items[1], DisplayItem::Rect { .. }));
    match &items[2] {
        DisplayItem::Text { text, layout_point, .. } => {
            assert_eq!(text, "hi");
            assert_eq!(*layout_point, LayoutPoint::new(0, 0));
        }
        _ => panic!("the third item is the text"),
    }
}

#[test]
fn render_is_the_same_every_time() {
    let html = "<body><p class=a>x y z</p><a>b</a><style>.a{color:#ff0000}</style></body>";
    let first = render(html.to_string());
    let second = render(html.to_string());
    assert_eq!(first, second);
    assert_eq!(first.clone(), first);
}

#[test]
fn render_of_a_cut_off_document() {
    let items = render("<body><p>a</p><p cl".to_string());
    assert_eq!(items.len(), 3);
}

#[test]
fn script_lexer_and_tokens() {
    let _ = JsLexer::new("1 + 2".to_string());
    assert_eq!(Token::Number(1), Token::Number(1));
    assert_ne!(Token::Punctuator('+'), Token::Number(1));
}

#[test]
fn render_of_a_long_document() {
    let mut html = String::from("<html><head><style>p{color:red} .x{display:none}</style></head><body>");
    for i in 0..1000 {
        if i % 10 == 0 {
            html.push_str("<p class=x>hidden</p>");
        }
        html.push_str("<p>some words to paint <a>and a link</a></p>");
    }
    for _ in 0..100 {
        html.push_str("<p>");
    }
    html.push_str("deep");
    html.push_str("</body></html>");
    let items = render(html);
    // body, then for each shown paragraph a rectangle and two texts, then the nested ones.
    assert_eq!(items.len(), 1 + 1000 * 3 + 100 + 1);
}
