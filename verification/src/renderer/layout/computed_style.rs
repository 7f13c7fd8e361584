//! The style of one element after the cascade: colors, display and font
//! size.

use crate::error::Error;
use crate::renderer::dom::node::is_block_kind;
use crate::renderer::dom::node::ElementKind;
use crate::renderer::dom::node::NodeKind;
use crate::renderer::dom::node::NodeKindView;
use crate::utils::chars_of;
use crate::utils::str_eq;
use vstd::prelude::*;

verus! {

/// A color as `0xRRGGBB`.
#[derive(Debug, Clone, Copy, PartialEq, Eq, Structural)]
pub struct Color {
    pub code: u32,
}

/// The value of a hexadecimal digit.
pub open spec fn hex_value(c: char) -> Option<u32> {
    if '0' <= c && c <= '9' {
        Some((c as u32 - '0' as u32) as u32)
    } else if 'a' <= c && c <= 'f' {
        Some((c as u32 - 'a' as u32 + 10) as u32)
    } else if 'A' <= c && c <= 'F' {
        Some((c as u32 - 'A' as u32 + 10) as u32)
    } else {
        None
    }
}

pub fn hex_digit(c: char) -> (r: Option<u32>)
    ensures
        r == hex_value(c),
        r matches Some(v) ==> v < 16,
{
    if c >= '0' && c <= '9' {
        Some(c as u32 - '0' as u32)
    } else if c >= 'a' && c <= 'f' {
        Some(c as u32 - 'a' as u32 + 10)
    } else if c >= 'A' && c <= 'F' {
        Some(c as u32 - 'A' as u32 + 10)
    } else {
        None
    }
}

impl Color {
    pub open spec fn spec_white() -> Color {
        Color { code: 0xffffff }
    }

    pub open spec fn spec_black() -> Color {
        Color { code: 0x000000 }
    }

    pub open spec fn spec_blue() -> Color {
        Color { code: 0x0000ff }
    }

    /// The color that a name of the palette stands for.
    pub open spec fn spec_from_name(name: Seq<char>) -> Option<Color> {
        if name == "black"@ {
            Some(Color { code: 0x000000 })
        } else if name == "silver"@ {
            Some(Color { code: 0xc0c0c0 })
        } else if name == "gray"@ {
            Some(Color { code: 0x808080 })
        } else if name == "white"@ {
            Some(Color { code: 0xffffff })
        } else if name == "maroon"@ {
            Some(Color { code: 0x800000 })
        } else if name == "red"@ {
            Some(Color { code: 0xff0000 })
        } else if name == "purple"@ {
            Some(Color { code: 0x800080 })
        } else if name == "fuchsia"@ {
            Some(Color { code: 0xff00ff })
        } else if name == "green"@ {
            Some(Color { code: 0x008000 })
        } else if name == "lime"@ {
            Some(Color { code: 0x00ff00 })
        } else if name == "olive"@ {
            Some(Color { code: 0x808000 })
        } else if name == "yellow"@ {
            Some(Color { code: 0xffff00 })
        } else if name == "navy"@ {
            Some(Color { code: 0x000080 })
        } else if name == "blue"@ {
            Some(Color { code: 0x0000ff })
        } else if name == "teal"@ {
            Some(Color { code: 0x008080 })
        } else if name == "aqua"@ {
            Some(Color { code: 0x00ffff })
        } else if name == "orange"@ {
            Some(Color { code: 0xffa500 })
        } else if name == "lightgray"@ {
            Some(Color { code: 0xd3d3d3 })
        } else if name == "darkgray"@ {
            Some(Color { code: 0xa9a9a9 })
        } else {
            None
        }
    }

    /// The color that a code stands for: `#` and six hexadecimal digits,
    /// two each for red, green and blue.
    pub open spec fn spec_from_code(code: Seq<char>) -> Option<Color> {
        if code.len() == 7 && code[0] == '#' && hex_value(code[1]) is Some && hex_value(code[2])
            is Some && hex_value(code[3]) is Some && hex_value(code[4]) is Some && hex_value(
            code[5],
        ) is Some && hex_value(code[6]) is Some {
            Some(
                Color {
                    code: (hex_value(code[1])->0 * 0x100000 + hex_value(code[2])->0 * 0x10000
                        + hex_value(code[3])->0 * 0x1000 + hex_value(code[4])->0 * 0x100
                        + hex_value(code[5])->0 * 0x10 + hex_value(code[6])->0) as u32,
                },
            )
        } else {
            None
        }
    }

    /// The color with the given name. A name outside the palette comes
    /// back in the error.
    pub fn from_name(name: &str) -> (r: Result<Color, Error>)
        ensures
            match r {
                Ok(c) => Color::spec_from_name(name@) == Some(c),
                Err(e) => Color::spec_from_name(name@) is None && e.text() == name@,
            },
    {
        let code: u32 = if str_eq(name, "black") {
            0x000000
        } else if str_eq(name, "silver") {
            0xc0c0c0
        } else if str_eq(name, "gray") {
            0x808080
        } else if str_eq(name, "white") {
            0xffffff
        } else if str_eq(name, "maroon") {
            0x800000
        } else if str_eq(name, "red") {
            0xff0000
        } else if str_eq(name, "purple") {
            0x800080
        } else if str_eq(name, "fuchsia") {
            0xff00ff
        } else if str_eq(name, "green") {
            0x008000
        } else if str_eq(name, "lime") {
            0x00ff00
        } else if str_eq(name, "olive") {
            0x808000
        } else if str_eq(name, "yellow") {
            0xffff00
        } else if str_eq(name, "navy") {
            0x000080
        } else if str_eq(name, "blue") {
            0x0000ff
        } else if str_eq(name, "teal") {
            0x008080
        } else if str_eq(name, "aqua") {
            0x00ffff
        } else if str_eq(name, "orange") {
            0xffa500
        } else if str_eq(name, "lightgray") {
            0xd3d3d3
        } else if str_eq(name, "darkgray") {
            0xa9a9a9
        } else {
            return Err(Error::UnexpectedInput(name.to_owned()));
        };
        Ok(Color { code })
    }

    /// The color with the given code, `#rrggbb`. Any other text comes back
    /// in the error.
    pub fn from_code(code: &str) -> (r: Result<Color, Error>)
        ensures
            match r {
                Ok(c) => Color::spec_from_code(code@) == Some(c),
                Err(e) => Color::spec_from_code(code@) is None && e.text() == code@,
            },
    {
        let chars = chars_of(code);
        if chars.len() != 7 || chars[0] != '#' {
            return Err(Error::UnexpectedInput(code.to_owned()));
        }
        match (
            hex_digit(chars[1]),
            hex_digit(chars[2]),
            hex_digit(chars[3]),
            hex_digit(chars[4]),
            hex_digit(chars[5]),
            hex_digit(chars[6]),
        ) {
            (Some(a), Some(b), Some(c), Some(d), Some(e), Some(f)) => Ok(
                Color { code: a * 0x100000 + b * 0x10000 + c * 0x1000 + d * 0x100 + e * 0x10 + f },
            ),
            _ => Err(Error::UnexpectedInput(code.to_owned())),
        }
    }

    pub fn white() -> (c: Color)
        ensures
            c == Color::spec_white(),
    {
        Color { code: 0xffffff }
    }

    pub fn black() -> (c: Color)
        ensures
            c == Color::spec_black(),
    {
        Color { code: 0x000000 }
    }

    pub fn blue() -> (c: Color)
        ensures
            c == Color::spec_blue(),
    {
        Color { code: 0x0000ff }
    }

    /// The color as `0xRRGGBB`.
    pub fn code_u32(&self) -> (code: u32)
        ensures
            code == self.code,
    {
        self.code
    }
}

#[derive(Debug, Clone, Copy, PartialEq, Eq, Structural)]
pub enum DisplayType {
    Block,
    Inline,
    DisplayNone,
}

impl DisplayType {
    /// The display that a keyword stands for.
    pub open spec fn spec_from_str(s: Seq<char>) -> Option<DisplayType> {
        if s == "block"@ {
            Some(DisplayType::Block)
        } else if s == "inline"@ {
            Some(DisplayType::Inline)
        } else if s == "none"@ {
            Some(DisplayType::DisplayNone)
        } else {
            None
        }
    }

    /// The display of a node that no style gives one: none for the
    /// document, for `script` and for `style`; block for `body`, `h1`,
    /// `h2` and `p`; inline for every other element and for text.
    pub open spec fn spec_default(kind: NodeKindView) -> DisplayType {
        match kind {
            NodeKindView::Document => DisplayType::DisplayNone,
            NodeKindView::Element(e) => if is_block_kind(e.kind) {
                DisplayType::Block
            } else if e.kind == ElementKind::Script || e.kind == ElementKind::Style {
                DisplayType::DisplayNone
            } else {
                DisplayType::Inline
            },
            NodeKindView::Text(_) => DisplayType::Inline,
        }
    }

    /// The display for `block`, `inline` or `none`. Any other text comes
    /// back in the error.
    pub fn from_str(s: &str) -> (r: Result<DisplayType, Error>)
        ensures
            match r {
                Ok(d) => DisplayType::spec_from_str(s@) == Some(d),
                Err(e) => DisplayType::spec_from_str(s@) is None && e.text() == s@,
            },
    {
        if str_eq(s, "block") {
            Ok(DisplayType::Block)
        } else if str_eq(s, "inline") {
            Ok(DisplayType::Inline)
        } else if str_eq(s, "none") {
            Ok(DisplayType::DisplayNone)
        } else {
            Err(Error::UnexpectedInput(s.to_owned()))
        }
    }

    pub fn default(kind: &NodeKind) -> (d: DisplayType)
        ensures
            d == DisplayType::spec_default(kind@),
    {
        match kind {
            NodeKind::Document => DisplayType::DisplayNone,
            NodeKind::Element(e) => {
                if e.is_block_element() {
                    DisplayType::Block
                } else {
                    match e.kind() {
                        ElementKind::Script | ElementKind::Style => DisplayType::DisplayNone,
                        _ => DisplayType::Inline,
                    }
                }
            },
            NodeKind::Text(_) => DisplayType::Inline,
        }
    }
}

#[derive(Debug, Clone, Copy, PartialEq, Eq, Structural)]
pub enum FontSize {
    Medium,
    XLarge,
    XXLarge,
}

impl FontSize {
    /// The font size of a node that neither a style nor its parent gives
    /// one: the largest for `h1`, the middle one for `h2`, else medium.
    pub open spec fn spec_default(kind: NodeKindView) -> FontSize {
        match kind {
            NodeKindView::Element(e) => if e.kind == ElementKind::H1 {
                FontSize::XXLarge
            } else if e.kind == ElementKind::H2 {
                FontSize::XLarge
            } else {
                FontSize::Medium
            },
            _ => FontSize::Medium,
        }
    }

    /// By how much the font size scales a character: 1, 2 or 3.
    pub open spec fn spec_ratio(self) -> int {
        match self {
            FontSize::Medium => 1,
            FontSize::XLarge => 2,
            FontSize::XXLarge => 3,
        }
    }

    pub fn default(kind: &NodeKind) -> (f: FontSize)
        ensures
            f == FontSize::spec_default(kind@),
    {
        match kind {
            NodeKind::Element(e) => match e.kind() {
                ElementKind::H1 => FontSize::XXLarge,
                ElementKind::H2 => FontSize::XLarge,
                _ => FontSize::Medium,
            },
            _ => FontSize::Medium,
        }
    }

    pub fn ratio(&self) -> (r: i64)
        ensures
            r == self.spec_ratio(),
    {
        match self {
            FontSize::Medium => 1,
            FontSize::XLarge => 2,
            FontSize::XXLarge => 3,
        }
    }
}

/// The text color of a node that neither a style nor its parent gives
/// one: blue for `a`, else black.
pub open spec fn default_color(kind: NodeKindView) -> Color {
    match kind {
        NodeKindView::Element(e) => if e.kind == ElementKind::A {
            Color::spec_blue()
        } else {
            Color::spec_black()
        },
        _ => Color::spec_black(),
    }
}

pub fn color_default(kind: &NodeKind) -> (c: Color)
    ensures
        c == default_color(kind@),
{
    match kind {
        NodeKind::Element(e) => match e.kind() {
            ElementKind::A => Color::blue(),
            _ => Color::black(),
        },
        _ => Color::black(),
    }
}

/// The style of one node. A property that nothing has set yet is `None`,
/// and reads as its initial value: white background, black text, inline
/// display, medium font.
#[derive(Debug, Clone, Copy, PartialEq, Eq, Structural)]
pub struct ComputedStyle {
    pub background_color: Option<Color>,
    pub color: Option<Color>,
    pub display: Option<DisplayType>,
    pub font_size: Option<FontSize>,
}

impl ComputedStyle {
    pub open spec fn spec_new() -> ComputedStyle {
        ComputedStyle { background_color: None, color: None, display: None, font_size: None }
    }

    pub open spec fn spec_background_color(self) -> Color {
        match self.background_color {
            Some(c) => c,
            None => Color::spec_white(),
        }
    }

    pub open spec fn spec_color(self) -> Color {
        match self.color {
            Some(c) => c,
            None => Color::spec_black(),
        }
    }

    pub open spec fn spec_display(self) -> DisplayType {
        match self.display {
            Some(d) => d,
            None => DisplayType::Inline,
        }
    }

    pub open spec fn spec_font_size(self) -> FontSize {
        match self.font_size {
            Some(f) => f,
            None => FontSize::Medium,
        }
    }

    /// The style with every property that is not set yet filled in.
    ///
    /// Background: white. Text color and font size: the parent's value
    /// where there is a parent and its value is not the initial one (black,
    /// medium), else the default of the node's kind. Display: the default
    /// of the node's kind.
    pub open spec fn spec_defaulting(
        self,
        kind: NodeKindView,
        parent_style: Option<ComputedStyle>,
    ) -> ComputedStyle {
        ComputedStyle {
            background_color: Some(self.spec_background_color()),
            color: Some(
                match self.color {
                    Some(c) => c,
                    None => match parent_style {
                        Some(p) => if p.spec_color() != Color::spec_black() {
                            p.spec_color()
                        } else {
                            default_color(kind)
                        },
                        None => default_color(kind),
                    },
                },
            ),
            display: Some(
                match self.display {
                    Some(d) => d,
                    None => DisplayType::spec_default(kind),
                },
            ),
            font_size: Some(
                match self.font_size {
                    Some(f) => f,
                    None => match parent_style {
                        Some(p) => if p.spec_font_size() != FontSize::Medium {
                            p.spec_font_size()
                        } else {
                            FontSize::spec_default(kind)
                        },
                        None => FontSize::spec_default(kind),
                    },
                },
            ),
        }
    }

    /// A style with no property set.
    pub fn new() -> (s: Self)
        ensures
            s == ComputedStyle::spec_new(),
    {
        Self { background_color: None, color: None, display: None, font_size: None }
    }

    /// Fills in every property that is not set yet, for a node of kind
    /// `kind` whose parent, if it has one, has the style `parent_style`.
    pub fn defaulting(&mut self, kind: &NodeKind, parent_style: Option<ComputedStyle>)
        ensures
            *final(self) == old(self).spec_defaulting(kind@, parent_style),
    {
        if self.background_color.is_none() {
            self.background_color = Some(Color::white());
        }
        if self.color.is_none() {
            let inherited = match parent_style {
                Some(p) => {
                    if p.color() != Color::black() {
                        Some(p.color())
                    } else {
                        None
                    }
                },
                None => None,
            };
            self.color = Some(
                match inherited {
                    Some(c) => c,
                    None => color_default(kind),
                },
            );
        }
        if self.display.is_none() {
            self.display = Some(DisplayType::default(kind));
        }
        if self.font_size.is_none() {
            let inherited = match parent_style {
                Some(p) => {
                    if p.font_size() != FontSize::Medium {
                        Some(p.font_size())
                    } else {
                        None
                    }
                },
                None => None,
            };
            self.font_size = Some(
                match inherited {
                    Some(f) => f,
                    None => FontSize::default(kind),
                },
            );
        }
    }

    pub fn set_background_color(&mut self, color: Color)
        ensures
            *final(self) == (ComputedStyle { background_color: Some(color), ..*old(self) }),
    {
        self.background_color = Some(color);
    }

    pub fn background_color(&self) -> (c: Color)
        ensures
            c == self.spec_background_color(),
    {
        match self.background_color {
            Some(c) => c,
            None => Color::white(),
        }
    }

    pub fn set_color(&mut self, color: Color)
        ensures
            *final(self) == (ComputedStyle { color: Some(color), ..*old(self) }),
    {
        self.color = Some(color);
    }

    pub fn color(&self) -> (c: Color)
        ensures
            c == self.spec_color(),
    {
        match self.color {
            Some(c) => c,
            None => Color::black(),
        }
    }

    pub fn set_display(&mut self, display: DisplayType)
        ensures
            *final(self) == (ComputedStyle { display: Some(display), ..*old(self) }),
    {
        self.display = Some(display);
    }

    pub fn display(&self) -> (d: DisplayType)
        ensures
            d == self.spec_display(),
    {
        match self.display {
            Some(d) => d,
            None => DisplayType::Inline,
        }
    }

    pub fn set_font_size(&mut self, font_size: FontSize)
        ensures
            *final(self) == (ComputedStyle { font_size: Some(font_size), ..*old(self) }),
    {
        self.font_size = Some(font_size);
    }

    pub fn font_size(&self) -> (f: FontSize)
        ensures
            f == self.spec_font_size(),
    {
        match self.font_size {
            Some(f) => f,
            None => FontSize::Medium,
        }
    }
}

} // verus!
