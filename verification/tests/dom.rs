use saba_core::renderer::css::cssom::Selector;
use saba_core::renderer::dom::api::get_js_content;
use saba_core::renderer::dom::api::get_style_content;
use saba_core::renderer::dom::api::get_target_element_node;
use saba_core::renderer::dom::node::Element;
use saba_core::renderer::dom::node::ElementKind;
use saba_core::renderer::dom::node::Node;
use saba_core::renderer::dom::node::NodeKind;
use saba_core::renderer::dom::node::Window;
use saba_core::renderer::html::attribute::Attribute;
use saba_core::renderer::html::parser::HtmlParser;
use saba_core::renderer::html::token::HtmlTokenizer;

fn parse(html: &str) -> Window {
    HtmlParser::new(HtmlTokenizer::new(html.to_string())).construct_tree()
}

/// The tree below node `id`, written as `name(child child ...)`.
fn outline(w: &Window, id: usize) -> String {
    let node = w.node(id);
    let mut s = match node.kind() {
        NodeKind::Document => "#document".to_string(),
        NodeKind::Element(e) => e.kind().name(),
        NodeKind::Text(t) => format!("{:?}", t),
    };
    let mut child = node.first_child();
    if child.is_some() {
        s.push('(');
        let mut first = true;
        let mut previous = None;
        while let Some(c) = child {
            if !first {
                s.push(' ');
            }
            first = false;
            assert_eq!(w.node(c).parent(), Some(id));
            assert_eq!(w.node(c).previous_sibling(), previous);
            s.push_str(&outline(w, c));
            previous = Some(c);
            child = w.node(c).next_sibling();
        }
        assert_eq!(node.last_child(), previous);
        s.push(')');
    } else {
        assert_eq!(node.last_child(), None);
    }
    s
}

#[test]
fn empty_document() {
    let w = parse("");
    assert_eq!(w.len(), 1);
    assert_eq!(outline(&w, w.document()), "#document");
    assert_eq!(w.node(0).kind(), NodeKind::Document);
}

#[test]
fn body_only() {
    let w = parse("<html><head></head><body></body></html>");
    assert_eq!(outline(&w, 0), "#document(html(head body))");
}

#[test]
fn heading_with_text() {
    let w = parse("<html><head></head><body><h1>hi</h1></body></html>");
    assert_eq!(outline(&w, 0), "#document(html(head body(h1(\"hi\"))))");
}

#[test]
fn html_head_and_body_are_implied() {
    let w = parse("<p>a</p>");
    assert_eq!(outline(&w, 0), "#document(html(head body(p(\"a\"))))");
    let w = parse("<body><a>one</a><a>two</a></body>");
    assert_eq!(outline(&w, 0), "#document(html(head body(a(\"one\") a(\"two\"))))");
}

#[test]
fn siblings_keep_document_order() {
    let w = parse("<html><head></head><body><p>a</p><h2>b</h2><a>c</a><p>d</p></body></html>");
    assert_eq!(
        outline(&w, 0),
        "#document(html(head body(p(\"a\") h2(\"b\") a(\"c\") p(\"d\"))))"
    );
    let body = get_target_element_node(&w, Some(0), ElementKind::Body).unwrap();
    let mut child = w.node(body).first_child();
    let mut last = body;
    while let Some(c) = child {
        assert!(last < c);
        last = c;
        child = w.node(c).next_sibling();
    }
}

#[test]
fn nested_elements_and_text_around_them() {
    let w = parse("<body><p>a <a>b</a> c</p>d</body>");
    assert_eq!(outline(&w, 0), "#document(html(head body(p(\"a \" a(\"b\") \"c\") \"d\")))");
}

#[test]
fn whitespace_between_blocks_starts_no_text() {
    let w = parse("<html>\n<head>\n</head>\n<body>\n  <p>a</p>\n  <p>b</p>\n</body>\n</html>\n");
    assert_eq!(outline(&w, 0), "#document(html(head body(p(\"a\") p(\"b\"))))");
}

#[test]
fn unknown_elements_are_dropped_and_their_children_kept() {
    let w = parse("<body><div><p>a</p>b</div><span>c</span></body>");
    assert_eq!(outline(&w, 0), "#document(html(head body(p(\"a\") \"bc\")))");
    let w = parse("<html><head><title>t</title><meta charset=x></head><body></body></html>");
    assert_eq!(outline(&w, 0), "#document(html(head body))");
}

#[test]
fn end_tag_of_an_element_that_is_not_open_is_ignored() {
    let w = parse("<body><p>a</h1>b</p>c</body>");
    assert_eq!(outline(&w, 0), "#document(html(head body(p(\"ab\") \"c\")))");
}

#[test]
fn end_tag_closes_what_is_open_inside() {
    let w = parse("<body><p><a>x</p>y</body>");
    assert_eq!(outline(&w, 0), "#document(html(head body(p(a(\"x\")) \"y\")))");
}

#[test]
fn self_closing_element_is_not_opened() {
    let w = parse("<body><p/>x<a/>y</body>");
    assert_eq!(outline(&w, 0), "#document(html(head body(p \"x\" a \"y\")))");
}

#[test]
fn attributes_reach_the_element() {
    let w = parse("<body><p class=\"c\" id=i>x</p></body>");
    let p = get_target_element_node(&w, Some(0), ElementKind::P).unwrap();
    let e = w.node(p).get_element().unwrap();
    assert_eq!(e.kind(), ElementKind::P);
    assert_eq!(
        e.attributes(),
        vec![
            Attribute::from_parts("class".to_string(), "c".to_string()),
            Attribute::from_parts("id".to_string(), "i".to_string())
        ]
    );
    assert!(e.has_attribute("class", "c"));
    assert!(!e.has_attribute("class", "i"));
    assert_eq!(w.node(p).element_kind(), Some(ElementKind::P));
}

#[test]
fn style_text_becomes_rules_of_the_window() {
    let w = parse(
        "<html><head><style>.c{background-color:red;} p { color: blue }</style></head><body><p class=\"c\">x</p></body></html>",
    );
    assert_eq!(
        outline(&w, 0),
        "#document(html(head(style(\".c{background-color:red;} p { color: blue }\")) body(p(\"x\"))))"
    );
    assert_eq!(get_style_content(&w), ".c{background-color:red;} p { color: blue }");
    let rules = &w.style_sheet().rules;
    assert_eq!(rules.len(), 2);
    assert_eq!(rules[0].selector, Selector::ClassSelector("c".to_string()));
    assert_eq!(rules[1].selector, Selector::TypeSelector("p".to_string()));
}

#[test]
fn two_style_elements_add_their_rules_in_order() {
    let w = parse("<head><style>p{color:red}</style><style>a{color:red}</style></head>");
    let rules = &w.style_sheet().rules;
    assert_eq!(rules.len(), 2);
    assert_eq!(rules[0].selector, Selector::TypeSelector("p".to_string()));
    assert_eq!(rules[1].selector, Selector::TypeSelector("a".to_string()));
}

#[test]
fn script_text_is_kept_and_not_parsed_as_tags() {
    let w = parse("<html><head><script>if (a<b) { x = \"</p>\"; }</script></head><body>y</body></html>");
    assert_eq!(
        outline(&w, 0),
        "#document(html(head(script(\"if (a<b) { x = \\\"</p>\\\"; }\")) body(\"y\")))"
    );
    assert_eq!(w.style_sheet().rules.len(), 0);
    assert_eq!(get_js_content(&w), "if (a<b) { x = \"</p>\"; }");
    assert_eq!(get_style_content(&w), "");
}

#[test]
fn no_style_gives_empty_content() {
    let w = parse("<body></body>");
    assert_eq!(get_style_content(&w), "");
    assert_eq!(get_target_element_node(&w, Some(0), ElementKind::Style), None);
    assert_eq!(get_target_element_node(&w, None, ElementKind::Body), None);
    assert_eq!(get_target_element_node(&w, Some(99), ElementKind::Body), None);
}

#[test]
fn target_element_is_the_first_in_document_order() {
    let w = parse("<body><p><a>1</a></p><a>2</a></body>");
    let a = get_target_element_node(&w, Some(0), ElementKind::A).unwrap();
    let p = get_target_element_node(&w, Some(0), ElementKind::P).unwrap();
    assert_eq!(w.node(a).parent(), Some(p));
}

#[test]
fn window_append_child_links_the_nodes() {
    let mut w = Window::new();
    assert_eq!(w.document(), 0);
    let html = w.append_child(0, NodeKind::Element(Element::new("html", Vec::new())));
    let a = w.append_child(html, NodeKind::Element(Element::new("p", Vec::new())));
    let b = w.append_child(html, NodeKind::Text("t".to_string()));
    let c = w.append_child(html, NodeKind::Element(Element::new("a", Vec::new())));
    w.append_text(b, 'u');
    assert_eq!((html, a, b, c), (1, 2, 3, 4));
    assert_eq!(w.len(), 5);
    assert_eq!(outline(&w, 0), "#document(html(p \"tu\" a))");
    assert!(w.get(5).is_none());
}

#[test]
fn node_kinds_compare_by_sort() {
    let first = NodeKind::Element(Element::new("p", Vec::new()));
    let second = NodeKind::Element(Element::new(
        "p",
        vec![Attribute::from_parts("id".to_string(), "x".to_string())],
    ));
    let a = NodeKind::Element(Element::new("a", Vec::new()));
    assert_eq!(first, second);
    assert_ne!(first, a);
    assert_eq!(NodeKind::Text("x".to_string()), NodeKind::Text("y".to_string()));
    assert_ne!(NodeKind::Text("x".to_string()), NodeKind::Document);
    assert_eq!(Node::new(NodeKind::Document), Node::new(NodeKind::Document));
}

#[test]
fn lone_node_has_no_relatives() {
    let mut n = Node::new(NodeKind::Text("x".to_string()));
    assert_eq!(n.parent(), None);
    assert_eq!(n.first_child(), None);
    assert_eq!(n.last_child(), None);
    assert_eq!(n.previous_sibling(), None);
    assert_eq!(n.next_sibling(), None);
    assert_eq!(n.get_element(), None);
    assert_eq!(n.element_kind(), None);
    n.set_parent(Some(1));
    n.set_first_child(Some(2));
    n.set_last_child(Some(3));
    n.set_previous_sibling(Some(4));
    n.set_next_sibling(Some(5));
    n.set_window(true);
    assert_eq!(n.parent(), Some(1));
    assert_eq!(n.first_child(), Some(2));
    assert_eq!(n.last_child(), Some(3));
    assert_eq!(n.previous_sibling(), Some(4));
    assert_eq!(n.next_sibling(), Some(5));
}

#[test]
fn element_kinds_and_names() {
    for name in ["html", "head", "style", "script", "body", "p", "h1", "h2", "a"] {
        let kind = ElementKind::from_str(name).unwrap();
        assert_eq!(kind.name(), name);
    }
    assert_eq!(ElementKind::from_str("div"), Err("div".to_string()));
    assert!(Element::new("body", Vec::new()).is_block_element());
    assert!(Element::new("h1", Vec::new()).is_block_element());
    assert!(Element::new("h2", Vec::new()).is_block_element());
    assert!(Element::new("p", Vec::new()).is_block_element());
    assert!(!Element::new("a", Vec::new()).is_block_element());
    assert!(!Element::new("html", Vec::new()).is_block_element());
}
