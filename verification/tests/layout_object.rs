use saba_core::renderer::layout::computed_style::Color;
use saba_core::renderer::layout::layout_object::find_index_for_line_break;
use saba_core::renderer::layout::layout_object::split_text;
use saba_core::renderer::layout::layout_object::squeeze_text;
use saba_core::renderer::layout::layout_object::trim_from;
use saba_core::renderer::layout::layout_object::text_size_of;
use saba_core::renderer::layout::layout_object::LayoutSize;

#[test]
fn line_break_index_is_the_last_space_before_the_bound() {
    assert_eq!(find_index_for_line_break("ab cd ef".to_string(), 6), 5);
    assert_eq!(find_index_for_line_break("ab cd ef".to_string(), 5), 2);
    assert_eq!(find_index_for_line_break("abcdef".to_string(), 4), 4);
    assert_eq!(find_index_for_line_break("abcdef".to_string(), 0), 0);
}

#[test]
fn short_text_is_one_line() {
    assert_eq!(split_text("hello world".to_string(), 8), vec!["hello world".to_string()]);
    assert_eq!(split_text(String::new(), 8), vec![String::new()]);
}

#[test]
fn long_text_is_wrapped_at_spaces() {
    let word = "abcdefghi ";
    let text: String = word.repeat(10).trim().to_string();
    let lines = split_text(text, 8);
    assert_eq!(
        lines,
        vec!["abcdefghi ".repeat(7).trim().to_string(), "abcdefghi abcdefghi abcdefghi".to_string()]
    );
}

#[test]
fn long_word_is_cut_at_the_bound() {
    let text = "x".repeat(80);
    assert_eq!(split_text(text, 8), vec!["x".repeat(75), "x".repeat(5)]);
    assert_eq!(split_text("y".repeat(30), 24), vec!["y".repeat(25), "y".repeat(5)]);
}

#[test]
fn text_size_formula() {
    assert_eq!(text_size_of(2, 3), Some(LayoutSize::new(48, 60)));
    assert_eq!(text_size_of(0, 1), Some(LayoutSize::new(0, 20)));
    assert_eq!(text_size_of(73, 1), Some(LayoutSize::new(584, 20)));
    assert_eq!(text_size_of(74, 1), Some(LayoutSize::new(590, 40)));
    assert_eq!(text_size_of(295, 1), Some(LayoutSize::new(590, 80)));
    assert_eq!(text_size_of(296, 1), Some(LayoutSize::new(590, 100)));
    assert_eq!(text_size_of(usize::MAX, 3), None);
}

#[test]
fn colors() {
    assert_eq!(Color::from_name("red").unwrap().code_u32(), 0xff0000);
    assert_eq!(Color::from_name("lightgray").unwrap().code_u32(), 0xd3d3d3);
    assert!(Color::from_name("nocolor").is_err());
    assert_eq!(Color::from_code("#12aBcD").unwrap().code_u32(), 0x12abcd);
    assert!(Color::from_code("#12aBc").is_err());
    assert!(Color::from_code("112aBcD").is_err());
    assert!(Color::from_code("#12345g").is_err());
    assert_eq!(Color::from_name("white").unwrap(), Color::white());
    assert_eq!(Color::from_code("#000000").unwrap(), Color::black());
}

#[test]
fn squeezing_and_trimming() {
    let chars = |s: &str| s.chars().collect::<Vec<char>>();
    assert_eq!(squeeze_text(&chars("  a \n b\t\tc  ")), chars("a b c"));
    assert_eq!(squeeze_text(&chars("")), chars(""));
    assert_eq!(squeeze_text(&chars(" \n ")), chars(""));
    assert_eq!(squeeze_text(&chars("abc")), chars("abc"));
    assert_eq!(trim_from(&chars("ab  cd  "), 2), chars("cd"));
    assert_eq!(trim_from(&chars("ab  cd  "), 0), chars("ab  cd"));
    assert_eq!(trim_from(&chars("ab   "), 2), chars(""));
    assert_eq!(trim_from(&chars("ab"), 2), chars(""));
}

#[test]
fn wrapping_at_other_widths() {
    // 37 characters of width 16 go into one line.
    let text = "ab ".repeat(20);
    let lines = split_text(text.trim().to_string(), 16);
    assert_eq!(lines, vec!["ab ".repeat(12).trim().to_string(), "ab ".repeat(8).trim().to_string()]);
    // A line that starts with a space gives an empty first line.
    let lines = split_text(format!(" {}", "x".repeat(80)), 8);
    assert_eq!(lines, vec![String::new(), "x".repeat(75), "x".repeat(5)]);
}
