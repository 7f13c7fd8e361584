use saba_core::error::Error;
use saba_core::renderer::css::cssom::Declaration;
use saba_core::renderer::css::cssom::Selector;
use saba_core::renderer::css::cssom::StyleSheet;
use saba_core::renderer::css::token::CssToken;
use saba_core::renderer::dom::node::Element;
use saba_core::renderer::dom::node::NodeKind;
use saba_core::renderer::dom::node::Window;
use saba_core::renderer::html::attribute::Attribute;
use saba_core::renderer::layout::computed_style::Color;
use saba_core::renderer::layout::computed_style::ComputedStyle;
use saba_core::renderer::layout::computed_style::DisplayType;
use saba_core::renderer::layout::computed_style::FontSize;
use saba_core::renderer::layout::layout_object::create_layout_object;
use saba_core::renderer::layout::layout_object::LayoutObject;
use saba_core::renderer::layout::layout_object::LayoutObjectKind;
use saba_core::renderer::layout::layout_object::LayoutPoint;
use saba_core::renderer::layout::layout_object::LayoutSize;

fn element(name: &str, attrs: &[(&str, &str)]) -> NodeKind {
    NodeKind::Element(Element::new(
        name,
        attrs.iter().map(|(n, v)| Attribute::from_parts(n.to_string(), v.to_string())).collect(),
    ))
}

/// A window with `html > body > kind`, and the place of the last node.
fn window_with(kind: NodeKind) -> (Window, usize) {
    let mut w = Window::new();
    let html = w.append_child(0, element("html", &[]));
    let body = w.append_child(html, element("body", &[]));
    let id = w.append_child(body, kind);
    (w, id)
}

fn decl(property: &str, value: CssToken) -> Declaration {
    let mut d = Declaration::new();
    d.set_property(property.to_string());
    d.set_value(value);
    d
}

fn ident(s: &str) -> CssToken {
    CssToken::Ident(s.to_string())
}

#[test]
fn error_holds_the_text() {
    assert_eq!(Color::from_name("nocolor"), Err(Error::UnexpectedInput("nocolor".to_string())));
    assert_eq!(Color::from_code("#zz0000"), Err(Error::UnexpectedInput("#zz0000".to_string())));
    assert_eq!(DisplayType::from_str("flex"), Err(Error::UnexpectedInput("flex".to_string())));
    assert_eq!(Error::UnexpectedInput("x".to_string()).message(), "x");
    assert_eq!(Error::UnexpectedInput("x".to_string()).clone(), Error::UnexpectedInput("x".to_string()));
}

#[test]
fn palette() {
    let palette = [
        ("black", 0x000000),
        ("silver", 0xc0c0c0),
        ("gray", 0x808080),
        ("white", 0xffffff),
        ("maroon", 0x800000),
        ("red", 0xff0000),
        ("purple", 0x800080),
        ("fuchsia", 0xff00ff),
        ("green", 0x008000),
        ("lime", 0x00ff00),
        ("olive", 0x808000),
        ("yellow", 0xffff00),
        ("navy", 0x000080),
        ("blue", 0x0000ff),
        ("teal", 0x008080),
        ("aqua", 0x00ffff),
        ("orange", 0xffa500),
        ("lightgray", 0xd3d3d3),
        ("darkgray", 0xa9a9a9),
    ];
    for (name, code) in palette {
        assert_eq!(Color::from_name(name).unwrap().code_u32(), code);
    }
    assert_eq!(Color::white().code_u32(), 0xffffff);
    assert_eq!(Color::black().code_u32(), 0);
    assert_eq!(Color::blue().code_u32(), 0xff);
    assert_eq!(Color::from_code("#FFA500").unwrap(), Color::from_name("orange").unwrap());
    assert_eq!(Color::from_code("#0a0B0c").unwrap().code_u32(), 0x0a0b0c);
}

#[test]
fn display_keywords() {
    assert_eq!(DisplayType::from_str("block"), Ok(DisplayType::Block));
    assert_eq!(DisplayType::from_str("inline"), Ok(DisplayType::Inline));
    assert_eq!(DisplayType::from_str("none"), Ok(DisplayType::DisplayNone));
    assert!(DisplayType::from_str("Block").is_err());
}

#[test]
fn defaults_by_kind_of_node() {
    assert_eq!(DisplayType::default(&NodeKind::Document), DisplayType::DisplayNone);
    assert_eq!(DisplayType::default(&NodeKind::Text("x".to_string())), DisplayType::Inline);
    for (name, display) in [
        ("html", DisplayType::Inline),
        ("head", DisplayType::Inline),
        ("style", DisplayType::DisplayNone),
        ("script", DisplayType::DisplayNone),
        ("body", DisplayType::Block),
        ("p", DisplayType::Block),
        ("h1", DisplayType::Block),
        ("h2", DisplayType::Block),
        ("a", DisplayType::Inline),
    ] {
        assert_eq!(DisplayType::default(&element(name, &[])), display);
    }
    assert_eq!(FontSize::default(&element("h1", &[])), FontSize::XXLarge);
    assert_eq!(FontSize::default(&element("h2", &[])), FontSize::XLarge);
    assert_eq!(FontSize::default(&element("p", &[])), FontSize::Medium);
    assert_eq!(FontSize::default(&NodeKind::Text("x".to_string())), FontSize::Medium);
    assert_eq!(FontSize::Medium.ratio(), 1);
    assert_eq!(FontSize::XLarge.ratio(), 2);
    assert_eq!(FontSize::XXLarge.ratio(), 3);
}

#[test]
fn unset_properties_read_as_initial_values() {
    let s = ComputedStyle::new();
    assert_eq!(s.background_color(), Color::white());
    assert_eq!(s.color(), Color::black());
    assert_eq!(s.display(), DisplayType::Inline);
    assert_eq!(s.font_size(), FontSize::Medium);
    let mut s = s;
    s.set_background_color(Color::blue());
    s.set_color(Color::white());
    s.set_display(DisplayType::Block);
    s.set_font_size(FontSize::XLarge);
    assert_eq!(s.background_color(), Color::blue());
    assert_eq!(s.color(), Color::white());
    assert_eq!(s.display(), DisplayType::Block);
    assert_eq!(s.font_size(), FontSize::XLarge);
}

#[test]
fn defaulting_without_parent() {
    let mut s = ComputedStyle::new();
    s.defaulting(&element("body", &[]), None);
    assert_eq!(s.background_color(), Color::white());
    assert_eq!(s.color(), Color::black());
    assert_eq!(s.display(), DisplayType::Block);
    assert_eq!(s.font_size(), FontSize::Medium);
    let mut s = ComputedStyle::new();
    s.defaulting(&element("a", &[]), None);
    assert_eq!(s.color(), Color::blue());
    assert_eq!(s.display(), DisplayType::Inline);
    let mut s = ComputedStyle::new();
    s.defaulting(&element("h1", &[]), None);
    assert_eq!(s.font_size(), FontSize::XXLarge);
}

#[test]
fn defaulting_with_parent() {
    let mut parent = ComputedStyle::new();
    parent.set_color(Color::from_name("red").unwrap());
    parent.set_font_size(FontSize::XLarge);
    parent.set_background_color(Color::from_name("green").unwrap());
    parent.set_display(DisplayType::Block);
    let mut s = ComputedStyle::new();
    s.defaulting(&NodeKind::Text("x".to_string()), Some(parent));
    assert_eq!(s.color(), Color::from_name("red").unwrap());
    assert_eq!(s.font_size(), FontSize::XLarge);
    assert_eq!(s.background_color(), Color::white());
    assert_eq!(s.display(), DisplayType::Inline);
    // What a declaration has set stays.
    let mut s = ComputedStyle::new();
    s.set_color(Color::blue());
    s.defaulting(&element("p", &[]), Some(parent));
    assert_eq!(s.color(), Color::blue());
    // A parent at the initial values leaves the defaults of the kind.
    let mut plain = ComputedStyle::new();
    plain.defaulting(&element("body", &[]), None);
    let mut s = ComputedStyle::new();
    s.defaulting(&element("h2", &[]), Some(plain));
    assert_eq!(s.font_size(), FontSize::XLarge);
    let mut s = ComputedStyle::new();
    s.defaulting(&element("a", &[]), Some(plain));
    assert_eq!(s.color(), Color::blue());
}

#[test]
fn selectors() {
    let (w, id) = window_with(element("p", &[("class", "c"), ("id", "i")]));
    let o = LayoutObject::new(&w, id, None);
    assert!(o.is_node_selected(&Selector::TypeSelector("p".to_string())));
    assert!(!o.is_node_selected(&Selector::TypeSelector("a".to_string())));
    assert!(o.is_node_selected(&Selector::ClassSelector("c".to_string())));
    assert!(!o.is_node_selected(&Selector::ClassSelector("i".to_string())));
    assert!(!o.is_node_selected(&Selector::ClassSelector("c d".to_string())));
    assert!(o.is_node_selected(&Selector::IdSelector("i".to_string())));
    assert!(!o.is_node_selected(&Selector::IdSelector("c".to_string())));
    assert!(!o.is_node_selected(&Selector::UnknownSelector));
    let (w, id) = window_with(element("p", &[("class", "a b")]));
    let o = LayoutObject::new(&w, id, None);
    assert!(!o.is_node_selected(&Selector::ClassSelector("a".to_string())));
    let (w, id) = window_with(NodeKind::Text("p".to_string()));
    let o = LayoutObject::new(&w, id, None);
    assert!(!o.is_node_selected(&Selector::TypeSelector("p".to_string())));
}

#[test]
fn fresh_object() {
    let (w, id) = window_with(element("a", &[]));
    let parent = LayoutObject::new(&w, 2, None);
    let o = LayoutObject::new(&w, id, Some(&parent));
    assert_eq!(o.kind(), LayoutObjectKind::Block);
    assert_eq!(o.node(), id);
    assert_eq!(o.node_kind(), element("a", &[]));
    assert_eq!(o.parent(), Some(2));
    assert_eq!(parent.parent(), None);
    assert_eq!(o.style(), ComputedStyle::new());
    assert_eq!(o.point(), LayoutPoint::new(0, 0));
    assert_eq!(o.size(), LayoutSize::new(0, 0));
    assert!(o.first_child().is_none());
    assert!(o.next_sibling().is_none());
}

#[test]
fn cascade_of_declarations() {
    let (w, id) = window_with(element("p", &[]));
    let mut o = LayoutObject::new(&w, id, None);
    o.cascading_style(vec![
        decl("color", ident("red")),
        decl("background-color", CssToken::HashToken("#00ff00".to_string())),
        decl("display", ident("inline")),
        decl("color", CssToken::HashToken("#0000ff".to_string())),
        decl("margin", ident("red")),
        decl("color", CssToken::Number("1".to_string())),
    ]);
    assert_eq!(o.style().color(), Color::blue());
    assert_eq!(o.style().background_color(), Color::from_name("lime").unwrap());
    assert_eq!(o.style().display(), DisplayType::Inline);
    assert_eq!(o.style().font_size, None);
    o.cascading_style(vec![
        decl("color", ident("nocolor")),
        decl("background-color", ident("nocolor")),
        decl("display", ident("flex")),
    ]);
    assert_eq!(o.style().color, Some(Color::black()));
    assert_eq!(o.style().background_color, Some(Color::white()));
    assert_eq!(o.style().display, Some(DisplayType::DisplayNone));
    o.cascading_style(vec![decl("display", CssToken::HashToken("#block".to_string()))]);
    assert_eq!(o.style().display, Some(DisplayType::DisplayNone));
}

#[test]
fn kinds_of_objects() {
    let (w, id) = window_with(element("p", &[]));
    let mut o = LayoutObject::new(&w, id, None);
    o.defaulting_style(None);
    o.update_kind();
    assert_eq!(o.kind(), LayoutObjectKind::Block);
    let (w, id) = window_with(element("a", &[]));
    let mut o = LayoutObject::new(&w, id, None);
    o.defaulting_style(None);
    o.update_kind();
    assert_eq!(o.kind(), LayoutObjectKind::Inline);
    let (w, id) = window_with(NodeKind::Text("t".to_string()));
    let mut o = LayoutObject::new(&w, id, None);
    o.defaulting_style(None);
    o.update_kind();
    assert_eq!(o.kind(), LayoutObjectKind::Text);
}

#[test]
fn created_objects() {
    let (w, id) = window_with(element("h1", &[]));
    let sheet = StyleSheet::new();
    let o = create_layout_object(&w, Some(id), None, &sheet).unwrap();
    assert_eq!(o.kind(), LayoutObjectKind::Block);
    assert_eq!(o.style().font_size(), FontSize::XXLarge);
    assert!(create_layout_object(&w, None, None, &sheet).is_none());
    assert!(create_layout_object(&w, Some(99), None, &sheet).is_none());
    // The document has no layout object.
    assert!(create_layout_object(&w, Some(0), None, &sheet).is_none());
    let (w, id) = window_with(element("script", &[]));
    assert!(create_layout_object(&w, Some(id), None, &sheet).is_none());
}

#[test]
fn sizes_from_children() {
    let (w, id) = window_with(NodeKind::Text("hello".to_string()));
    let sheet = StyleSheet::new();
    let mut text = create_layout_object(&w, Some(id), None, &sheet).unwrap();
    text.compute_size(LayoutSize::new(590, 0));
    assert_eq!(text.size(), LayoutSize::new(40, 20));
    let mut second = create_layout_object(&w, Some(id), None, &sheet).unwrap();
    assert!(second.try_compute_size(LayoutSize::new(590, 0)));
    let mut block = create_layout_object(&w, Some(2), None, &sheet).unwrap();
    text.set_next_sibling(Some(second));
    block.set_first_child(Some(text));
    block.compute_size(LayoutSize::new(300, 7));
    // The first text follows no inline sibling and counts; the second does not.
    assert_eq!(block.size(), LayoutSize::new(300, 20));
    let (w, id) = window_with(element("a", &[]));
    let mut inline = create_layout_object(&w, Some(id), None, &sheet).unwrap();
    assert_eq!(inline.kind(), LayoutObjectKind::Inline);
    let child = block;
    inline.set_first_child(Some(child));
    inline.compute_size(LayoutSize::new(590, 0));
    assert_eq!(inline.size(), LayoutSize::new(300, 20));
}

#[test]
fn positions_from_siblings() {
    let (w, id) = window_with(element("p", &[]));
    let sheet = StyleSheet::new();
    let mut block = create_layout_object(&w, Some(id), None, &sheet).unwrap();
    block.compute_position(LayoutPoint::new(3, 4), LayoutObjectKind::Block, None, None);
    assert_eq!(block.point(), LayoutPoint::new(3, 4));
    block.compute_position(
        LayoutPoint::new(3, 4),
        LayoutObjectKind::Inline,
        Some(LayoutPoint::new(10, 20)),
        Some(LayoutSize::new(30, 40)),
    );
    assert_eq!(block.point(), LayoutPoint::new(3, 60));
    let (w, id) = window_with(element("a", &[]));
    let mut inline = create_layout_object(&w, Some(id), None, &sheet).unwrap();
    inline.compute_position(
        LayoutPoint::new(3, 4),
        LayoutObjectKind::Inline,
        Some(LayoutPoint::new(10, 20)),
        Some(LayoutSize::new(30, 40)),
    );
    assert_eq!(inline.point(), LayoutPoint::new(40, 20));
    inline.compute_position(
        LayoutPoint::new(3, 4),
        LayoutObjectKind::Block,
        Some(LayoutPoint::new(10, 20)),
        Some(LayoutSize::new(30, 40)),
    );
    assert_eq!(inline.point(), LayoutPoint::new(3, 60));
    inline.compute_position(
        LayoutPoint::new(3, 4),
        LayoutObjectKind::Text,
        Some(LayoutPoint::new(10, 20)),
        Some(LayoutSize::new(30, 40)),
    );
    assert_eq!(inline.point(), LayoutPoint::new(3, 4));
    assert!(!inline.try_compute_position(
        LayoutPoint::new(0, 0),
        LayoutObjectKind::Inline,
        Some(LayoutPoint::new(i64::MAX, 0)),
        Some(LayoutSize::new(1, 0)),
    ));
    assert_eq!(inline.point(), LayoutPoint::new(3, 4));
}

#[test]
fn points_and_sizes() {
    let mut p = LayoutPoint::new(1, 2);
    p.set_x(3);
    p.set_y(4);
    assert_eq!((p.x(), p.y()), (3, 4));
    let mut s = LayoutSize::new(1, 2);
    s.set_width(3);
    s.set_height(4);
    assert_eq!((s.width(), s.height()), (3, 4));
}

#[test]
fn painting_one_object() {
    let (w, id) = window_with(NodeKind::Text("  a   b ".to_string()));
    let sheet = StyleSheet::new();
    let mut text = create_layout_object(&w, Some(id), None, &sheet).unwrap();
    text.compute_position(LayoutPoint::new(5, 6), LayoutObjectKind::Block, None, None);
    let items = text.paint();
    assert_eq!(items.len(), 1);
    assert_eq!(items, text.try_paint().unwrap());
    let (w, id) = window_with(element("a", &[]));
    let inline = create_layout_object(&w, Some(id), None, &sheet).unwrap();
    assert_eq!(inline.paint(), vec![]);
    // A line whose place is beyond the largest number is not painted.
    let (w, id) = window_with(NodeKind::Text("x".repeat(200)));
    let mut text = create_layout_object(&w, Some(id), None, &sheet).unwrap();
    text.compute_position(LayoutPoint::new(0, i64::MAX - 30), LayoutObjectKind::Block, None, None);
    assert!(text.try_paint().is_none());
    text.compute_position(LayoutPoint::new(0, i64::MAX - 40), LayoutObjectKind::Block, None, None);
    assert_eq!(text.try_paint().unwrap().len(), 3);
}
