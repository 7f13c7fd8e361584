use saba_core::constants::CHAR_HEIGHT_WITH_PADDING;
use saba_core::constants::CHAR_WIDTH;
use saba_core::constants::CONTENT_AREA_WIDTH;
use saba_core::display_item::DisplayItem;
use saba_core::renderer::css::cssom::CssParser;
use saba_core::renderer::css::cssom::StyleSheet;
use saba_core::renderer::css::token::CssTokenizer;
use saba_core::renderer::dom::node::NodeKind;
use saba_core::renderer::dom::node::Window;
use saba_core::renderer::html::parser::HtmlParser;
use saba_core::renderer::html::token::HtmlTokenizer;
use saba_core::renderer::layout::computed_style::Color;
use saba_core::renderer::layout::computed_style::DisplayType;
use saba_core::renderer::layout::computed_style::FontSize;
use saba_core::renderer::layout::layout_object::LayoutObject;
use saba_core::renderer::layout::layout_object::LayoutObjectKind;
use saba_core::renderer::layout::layout_object::LayoutPoint;
use saba_core::renderer::layout::layout_object::LayoutSize;
use saba_core::renderer::layout::layout_view::LayoutView;

fn parse(html: &str) -> Window {
    HtmlParser::new(HtmlTokenizer::new(html.to_string())).construct_tree()
}

fn sheet(css: &str) -> StyleSheet {
    CssParser::new(CssTokenizer::new(css.to_string())).parse_stylesheet()
}

fn layout(html: &str) -> LayoutView {
    let w = parse(html);
    LayoutView::try_new(&w, w.style_sheet()).unwrap()
}

fn render(html: &str) -> Vec<DisplayItem> {
    layout(html).try_paint().unwrap()
}

fn name(o: &LayoutObject) -> String {
    match o.node_kind() {
        NodeKind::Document => "#document".to_string(),
        NodeKind::Element(e) => e.kind().name(),
        NodeKind::Text(t) => format!("{:?}", t),
    }
}

/// The chain from `o` on, as `name@x,y+wxh(children) ...`.
fn outline(o: Option<&LayoutObject>) -> String {
    let mut parts = Vec::new();
    let mut cur = o;
    while let Some(x) = cur {
        let mut s = format!(
            "{}@{},{}+{}x{}",
            name(x),
            x.point().x(),
            x.point().y(),
            x.size().width(),
            x.size().height()
        );
        if x.first_child().is_some() {
            s.push('(');
            s.push_str(&outline(x.first_child()));
            s.push(')');
        }
        parts.push(s);
        cur = x.next_sibling();
    }
    parts.join(" ")
}

#[test]
fn no_body_no_tree() {
    let w = Window::new();
    let v = LayoutView::try_new(&w, &StyleSheet::new()).unwrap();
    assert!(v.root().is_none());
    assert_eq!(v.try_paint().unwrap(), vec![]);
}

#[test]
fn body_alone() {
    let v = layout("<html><head></head><body></body></html>");
    let root = v.root().unwrap();
    assert_eq!(root.kind(), LayoutObjectKind::Block);
    assert_eq!(root.parent(), None);
    assert_eq!(outline(v.root()), "body@0,0+590x0");
    assert_eq!(CONTENT_AREA_WIDTH, 590);
}

#[test]
fn heading_with_text_is_three_times_as_large() {
    let v = layout("<html><head></head><body><h1>hi</h1></body></html>");
    assert_eq!(outline(v.root()), "body@0,0+590x60(h1@0,0+590x60(\"hi\"@0,0+48x60))");
    let body = v.root().unwrap();
    let h1 = body.first_child().unwrap();
    let text = h1.first_child().unwrap();
    assert_eq!(h1.style().font_size(), FontSize::XXLarge);
    assert_eq!(text.style().font_size(), FontSize::XXLarge);
    assert_eq!(text.kind(), LayoutObjectKind::Text);
    assert_eq!(h1.parent(), Some(body.node()));
    assert_eq!(text.parent(), Some(h1.node()));
    let items = v.try_paint().unwrap();
    assert_eq!(items.len(), 3);
    assert_eq!(
        items[0],
        DisplayItem::Rect {
            style: body.style(),
            layout_point: LayoutPoint::new(0, 0),
            layout_size: LayoutSize::new(590, 60),
        }
    );
    assert_eq!(
        items[1],
        DisplayItem::Rect {
            style: h1.style(),
            layout_point: LayoutPoint::new(0, 0),
            layout_size: LayoutSize::new(590, 60),
        }
    );
    assert_eq!(
        items[2],
        DisplayItem::Text {
            text: "hi".to_string(),
            style: text.style(),
            layout_point: LayoutPoint::new(0, 0),
        }
    );
}

#[test]
fn class_rule_sets_the_background() {
    let items = render(
        "<html><head><style>.c{background-color:red;}</style></head><body><p class=\"c\">x</p></body></html>",
    );
    assert_eq!(items.len(), 3);
    match &items[1] {
        DisplayItem::Rect { style, layout_point, layout_size } => {
            assert_eq!(style.background_color(), Color::from_name("red").unwrap());
            assert_eq!(style.color(), Color::black());
            assert_eq!(style.display(), DisplayType::Block);
            assert_eq!(*layout_point, LayoutPoint::new(0, 0));
            assert_eq!(*layout_size, LayoutSize::new(590, 20));
        }
        _ => panic!("the second item is the rectangle of p"),
    }
    match &items[0] {
        DisplayItem::Rect { style, .. } => {
            assert_eq!(style.background_color(), Color::white());
        }
        _ => panic!("the first item is the rectangle of body"),
    }
}

#[test]
fn inline_elements_stand_side_by_side() {
    let v = layout("<body><a>one</a><a>two</a></body>");
    assert_eq!(
        outline(v.root()),
        "body@0,0+590x20(a@0,0+24x20(\"one\"@0,0+24x20) a@24,0+24x20(\"two\"@24,0+24x20))"
    );
    let a = v.root().unwrap().first_child().unwrap();
    assert_eq!(a.kind(), LayoutObjectKind::Inline);
    assert_eq!(a.style().color(), Color::from_name("blue").unwrap());
    assert_eq!(a.first_child().unwrap().style().color(), Color::from_name("blue").unwrap());
    let items = v.try_paint().unwrap();
    assert_eq!(items.len(), 3);
    match &items[2] {
        DisplayItem::Text { text, layout_point, .. } => {
            assert_eq!(text, "two");
            assert_eq!(layout_point.x(), CHAR_WIDTH * 3);
        }
        _ => panic!("the third item is the text of the second a"),
    }
}

#[test]
fn inline_between_blocks_has_a_row_of_its_own() {
    let v = layout("<body><p>a</p><a>b</a><p>c</p></body>");
    assert_eq!(
        outline(v.root()),
        "body@0,0+590x60(p@0,0+590x20(\"a\"@0,0+8x20) a@0,20+8x20(\"b\"@0,20+8x20) p@0,40+590x20(\"c\"@0,40+8x20))"
    );
}

#[test]
fn inline_siblings_count_once_for_the_height() {
    let v = layout("<body><a>x</a><a>y</a><a>z</a><p>q</p></body>");
    assert_eq!(
        outline(v.root()),
        "body@0,0+590x40(a@0,0+8x20(\"x\"@0,0+8x20) a@8,0+8x20(\"y\"@8,0+8x20) a@16,0+8x20(\"z\"@16,0+8x20) p@0,20+590x20(\"q\"@0,20+8x20))"
    );
}

#[test]
fn display_none_leaves_the_element_and_all_below_it_out() {
    let w = parse("<body><p>a</p><h1>b<a>c</a></h1><p>d</p></body>");
    let v = LayoutView::try_new(&w, &sheet("h1 { display: none }")).unwrap();
    assert_eq!(
        outline(v.root()),
        "body@0,0+590x40(p@0,0+590x20(\"a\"@0,0+8x20) p@0,20+590x20(\"d\"@0,20+8x20))"
    );
    let v = LayoutView::try_new(&w, &sheet("p { display: none }")).unwrap();
    assert_eq!(
        outline(v.root()),
        "body@0,0+590x60(h1@0,0+590x60(\"b\"@0,0+24x60 a@0,0+24x60(\"c\"@0,0+24x60)))"
    );
    let v = LayoutView::try_new(&w, &sheet("body { display: none }")).unwrap();
    assert!(v.root().is_none());
}

#[test]
fn style_and_script_in_the_body_have_no_object() {
    let v = layout("<body><style>p{color:red}</style><p>a</p><script>x</script></body>");
    assert_eq!(outline(v.root()), "body@0,0+590x20(p@0,0+590x20(\"a\"@0,0+8x20))");
    let p = v.root().unwrap().first_child().unwrap();
    assert_eq!(p.style().color(), Color::from_name("red").unwrap());
}

#[test]
fn later_rules_override_earlier_ones() {
    let w = parse("<body><p id=\"i\" class=\"c\">a</p></body>");
    let v = LayoutView::try_new(
        &w,
        &sheet("p{color:red;background-color:#00ff00} .c{color:#0000fF} #i{display:inline} x{color:green} p{frob:1}"),
    )
    .unwrap();
    let p = v.root().unwrap().first_child().unwrap();
    assert_eq!(p.style().color(), Color::from_code("#0000ff").unwrap());
    assert_eq!(p.style().background_color(), Color::from_name("lime").unwrap());
    assert_eq!(p.style().display(), DisplayType::Inline);
    assert_eq!(p.kind(), LayoutObjectKind::Inline);
}

#[test]
fn unknown_colors_fall_back() {
    let w = parse("<body><p>a</p></body>");
    let v = LayoutView::try_new(&w, &sheet("p{color:nocolor;background-color:#12}")).unwrap();
    let p = v.root().unwrap().first_child().unwrap();
    assert_eq!(p.style().color(), Color::black());
    assert_eq!(p.style().background_color(), Color::white());
    let v = LayoutView::try_new(&w, &sheet("p{display:flex}")).unwrap();
    assert_eq!(outline(v.root()), "body@0,0+590x0");
}

#[test]
fn color_and_font_size_are_inherited() {
    let w = parse("<body><h2>a<a>b</a></h2><p>c</p></body>");
    let v = LayoutView::try_new(&w, &sheet("body{color:red}")).unwrap();
    let body = v.root().unwrap();
    let h2 = body.first_child().unwrap();
    let text = h2.first_child().unwrap();
    let a = text.next_sibling().unwrap();
    let p = h2.next_sibling().unwrap();
    assert_eq!(h2.style().color(), Color::from_name("red").unwrap());
    assert_eq!(h2.style().font_size(), FontSize::XLarge);
    assert_eq!(text.style().color(), Color::from_name("red").unwrap());
    assert_eq!(text.style().font_size(), FontSize::XLarge);
    assert_eq!(a.style().color(), Color::from_name("red").unwrap());
    assert_eq!(a.style().font_size(), FontSize::XLarge);
    assert_eq!(p.style().color(), Color::from_name("red").unwrap());
    assert_eq!(p.style().font_size(), FontSize::Medium);
    assert_eq!(body.style().background_color(), Color::white());
}

#[test]
fn long_text_is_painted_line_by_line() {
    let html = format!("<body><p>{}</p></body>", "The quick brown fox jumps over the lazy dog. ".repeat(5));
    let v = layout(&html);
    let p = v.root().unwrap().first_child().unwrap();
    let text = p.first_child().unwrap();
    // 225 characters of the node's text are 1800 wide: four lines of the content area.
    assert_eq!(text.size(), LayoutSize::new(CONTENT_AREA_WIDTH, 4 * CHAR_HEIGHT_WITH_PADDING));
    let items = v.try_paint().unwrap();
    let lines: Vec<(&String, LayoutPoint)> = items
        .iter()
        .filter_map(|i| match i {
            DisplayItem::Text { text, layout_point, .. } => Some((text, *layout_point)),
            _ => None,
        })
        .collect();
    assert_eq!(lines.len(), 4);
    assert_eq!(lines[0].0, "The quick brown fox jumps over the lazy dog. The quick brown fox jumps");
    assert_eq!(lines[1].0, "over the lazy dog. The quick brown fox jumps over the lazy dog. The quick");
    assert_eq!(lines[2].0, "brown fox jumps over the lazy dog. The quick brown fox jumps over the lazy");
    assert_eq!(lines[3].0, "dog.");
    // Every line but the last ends where the text has a space.
    let whole = "The quick brown fox jumps over the lazy dog. ".repeat(5);
    let mut at = 0;
    for (i, (text, point)) in lines.iter().enumerate() {
        assert!(whole[at..].starts_with(text.as_str()));
        at += text.len();
        if i + 1 < lines.len() {
            assert_eq!(&whole[at..at + 1], " ");
            at += 1;
        }
        assert_eq!(point.x(), 0);
        assert_eq!(point.y(), CHAR_HEIGHT_WITH_PADDING * i as i64);
    }
}

#[test]
fn text_is_squeezed_before_it_is_painted() {
    let items = render("<body><p>a \n\t b    c\n</p></body>");
    match &items[2] {
        DisplayItem::Text { text, .. } => assert_eq!(text, "a b c"),
        _ => panic!("the third item is the text"),
    }
}

#[test]
fn paint_is_in_document_order() {
    let items = render("<body><p>a<a>b</a></p><h1>c</h1></body>");
    let seen: Vec<String> = items
        .iter()
        .map(|i| match i {
            DisplayItem::Rect { layout_size, .. } => format!("rect{}", layout_size.height()),
            DisplayItem::Text { text, .. } => text.clone(),
        })
        .collect();
    assert_eq!(seen, vec!["rect80", "rect20", "a", "b", "rect60", "c"]);
}

#[test]
fn rendering_twice_gives_the_same_list() {
    let html = "<html><head><style>p{color:red}</style></head><body><p>a<a>b</a></p><h1>c</h1></body></html>";
    assert_eq!(render(html), render(html));
}

#[test]
fn new_and_paint_agree_with_the_checked_forms() {
    let w = parse("<body><p>a</p></body>");
    let v = LayoutView::new(&w, w.style_sheet());
    let t = LayoutView::try_new(&w, w.style_sheet()).unwrap();
    assert_eq!(v.paint(), t.try_paint().unwrap());
    assert_eq!(v.paint().len(), 3);
}

#[test]
fn block_inside_inline_is_not_as_wide_as_its_parent() {
    let v = layout("<body><a><p>x</p>yy</a></body>");
    assert_eq!(
        outline(v.root()),
        "body@0,0+590x40(a@0,0+16x40(p@0,0+0x20(\"x\"@0,0+8x20) \"yy\"@0,20+16x20))"
    );
}

#[test]
fn copies_of_a_view_paint_the_same() {
    let v = layout("<body><p>a<a>b</a></p><h1>c</h1></body>");
    let copy = v.clone();
    assert_eq!(outline(copy.root()), outline(v.root()));
    assert_eq!(copy.try_paint(), v.try_paint());
    let root = v.root().unwrap().clone();
    assert_eq!(outline(Some(&root)), outline(v.root()));
}
