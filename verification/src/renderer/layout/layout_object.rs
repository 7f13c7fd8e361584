//! One object of the layout tree: its style, its size, its position, and
//! what it paints.

use crate::constants::CHAR_HEIGHT_WITH_PADDING;
use crate::constants::CHAR_WIDTH;
use crate::constants::CONTENT_AREA_WIDTH;
use crate::constants::WINDOW_PADDING;
use crate::constants::WINDOW_WIDTH;
use crate::display_item::items_view;
use crate::display_item::DisplayItem;
use crate::display_item::DisplayItemView;
use crate::renderer::css::cssom::declarations_view;
use crate::renderer::css::cssom::rules_view;
use crate::renderer::css::cssom::ComponentValue;
use crate::renderer::css::cssom::Declaration;
use crate::renderer::css::cssom::DeclarationView;
use crate::renderer::css::cssom::RuleView;
use crate::renderer::css::cssom::Selector;
use crate::renderer::css::cssom::SelectorView;
use crate::renderer::css::cssom::StyleSheet;
use crate::renderer::css::token::CssTokenView;
use crate::renderer::dom::node::NodeKind;
use crate::renderer::dom::node::NodeKindView;
use crate::renderer::dom::node::NodeView;
use crate::renderer::dom::node::Window;
use crate::renderer::html::attribute::has_attribute;
use crate::renderer::layout::computed_style::Color;
use crate::renderer::layout::computed_style::ComputedStyle;
use crate::renderer::layout::computed_style::DisplayType;
use crate::utils::chars_of;
use crate::utils::str_eq;
use crate::utils::string_of_range;
use vstd::prelude::*;
use vstd::std_specs::cmp::PartialEqSpecImpl;
use vstd::string::*;

verus! {

#[derive(Debug, Clone, Copy, PartialEq, Eq, Structural)]
pub enum LayoutObjectKind {
    Block,
    Inline,
    Text,
}

#[derive(Debug, Clone, Copy, PartialEq, Eq, Structural)]
pub struct LayoutPoint {
    pub x: i64,
    pub y: i64,
}

impl LayoutPoint {
    pub fn new(x: i64, y: i64) -> (p: Self)
        ensures
            p == (LayoutPoint { x, y }),
    {
        Self { x, y }
    }

    pub fn x(&self) -> (x: i64)
        ensures
            x == self.x,
    {
        self.x
    }

    pub fn y(&self) -> (y: i64)
        ensures
            y == self.y,
    {
        self.y
    }

    pub fn set_x(&mut self, x: i64)
        ensures
            *final(self) == (LayoutPoint { x, y: old(self).y }),
    {
        self.x = x;
    }

    pub fn set_y(&mut self, y: i64)
        ensures
            *final(self) == (LayoutPoint { x: old(self).x, y }),
    {
        self.y = y;
    }
}

#[derive(Debug, Clone, Copy, PartialEq, Eq, Structural)]
pub struct LayoutSize {
    pub width: i64,
    pub height: i64,
}

impl LayoutSize {
    pub fn new(width: i64, height: i64) -> (s: Self)
        ensures
            s == (LayoutSize { width, height }),
    {
        Self { width, height }
    }

    pub fn width(&self) -> (w: i64)
        ensures
            w == self.width,
    {
        self.width
    }

    pub fn height(&self) -> (h: i64)
        ensures
            h == self.height,
    {
        self.height
    }

    pub fn set_width(&mut self, width: i64)
        ensures
            *final(self) == (LayoutSize { width, height: old(self).height }),
    {
        self.width = width;
    }

    pub fn set_height(&mut self, height: i64)
        ensures
            *final(self) == (LayoutSize { width: old(self).width, height }),
    {
        self.height = height;
    }
}

/// What a [`LayoutObject`] holds, with the objects below and beside it.
pub struct LayoutObjectView {
    pub kind: LayoutObjectKind,
    /// The place of the node in its window.
    pub node: usize,
    pub node_kind: NodeKindView,
    pub first_child: Option<Box<LayoutObjectView>>,
    pub next_sibling: Option<Box<LayoutObjectView>>,
    /// The place, in the window, of the node of the parent object.
    pub parent: Option<usize>,
    pub style: ComputedStyle,
    pub point: LayoutPoint,
    pub size: LayoutSize,
}

/// A layout object, or none: what a first child or a next sibling is.
pub type Link = Option<Box<LayoutObjectView>>;

#[derive(Debug)]
pub struct LayoutObject {
    kind: LayoutObjectKind,
    node: usize,
    node_kind: NodeKind,
    first_child: Option<Box<LayoutObject>>,
    next_sibling: Option<Box<LayoutObject>>,
    parent: Option<usize>,
    style: ComputedStyle,
    point: LayoutPoint,
    size: LayoutSize,
}

impl View for LayoutObject {
    type V = LayoutObjectView;

    closed spec fn view(&self) -> LayoutObjectView
        decreases self,
    {
        LayoutObjectView {
            kind: self.kind,
            node: self.node,
            node_kind: self.node_kind@,
            first_child: match self.first_child {
                Some(c) => Some(Box::new((*c).view())),
                None => None,
            },
            next_sibling: match self.next_sibling {
                Some(c) => Some(Box::new((*c).view())),
                None => None,
            },
            parent: self.parent,
            style: self.style,
            point: self.point,
            size: self.size,
        }
    }
}

/// A copy of the objects from `l` on, with all that is below them.
pub fn clone_link(l: &Option<Box<LayoutObject>>) -> (r: Option<Box<LayoutObject>>)
    ensures
        link_view(r) == link_view(*l),
    decreases *l,
{
    match l {
        Some(n) => Some(
            Box::new(
                LayoutObject {
                    kind: n.kind,
                    node: n.node,
                    node_kind: n.node_kind.clone(),
                    first_child: clone_link(&n.first_child),
                    next_sibling: clone_link(&n.next_sibling),
                    parent: n.parent,
                    style: n.style,
                    point: n.point,
                    size: n.size,
                },
            ),
        ),
        None => None,
    }
}

impl Clone for LayoutObject {
    fn clone(&self) -> (r: Self)
        ensures
            r@ == self@,
    {
        LayoutObject {
            kind: self.kind,
            node: self.node,
            node_kind: self.node_kind.clone(),
            first_child: clone_link(&self.first_child),
            next_sibling: clone_link(&self.next_sibling),
            parent: self.parent,
            style: self.style,
            point: self.point,
            size: self.size,
        }
    }
}

impl PartialEq for LayoutObject {
    fn eq(&self, other: &Self) -> (r: bool) {
        self.kind == other.kind
    }
}

impl PartialEqSpecImpl for LayoutObject {
    open spec fn obeys_eq_spec() -> bool {
        true
    }

    /// Two layout objects count as equal where they are of the same kind.
    open spec fn eq_spec(&self, other: &Self) -> bool {
        self@.kind == other@.kind
    }
}

/// The view of an object that may be absent.
pub open spec fn link_view(l: Option<Box<LayoutObject>>) -> Link {
    match l {
        Some(b) => Some(Box::new((*b)@)),
        None => None,
    }
}

/// Whether a selector selects a node of kind `kind`.
///
/// A type selector selects the elements of that tag name, a class selector
/// those with the attribute `class` of that value, an id selector those
/// with the attribute `id` of that value. The unknown selector selects
/// nothing, and nothing selects the document or a text.
pub open spec fn selects(selector: SelectorView, kind: NodeKindView) -> bool {
    match kind {
        NodeKindView::Element(e) => match selector {
            SelectorView::TypeSelector(name) => e.kind.spec_name() == name,
            SelectorView::ClassSelector(name) => has_attribute(e.attributes, "class"@, name),
            SelectorView::IdSelector(name) => has_attribute(e.attributes, "id"@, name),
            SelectorView::UnknownSelector => false,
        },
        _ => false,
    }
}

/// The color that a declared value stands for: a name of the palette or a
/// code; `fallback` where the name or code is not known. `None` where the
/// value is neither an identifier nor a hash token.
pub open spec fn declared_color(value: CssTokenView, fallback: Color) -> Option<Color> {
    match value {
        CssTokenView::Ident(name) => Some(
            match Color::spec_from_name(name) {
                Some(c) => c,
                None => fallback,
            },
        ),
        CssTokenView::HashToken(code) => Some(
            match Color::spec_from_code(code) {
                Some(c) => c,
                None => fallback,
            },
        ),
        _ => None,
    }
}

/// The style after one declaration has been applied to it.
///
/// `background-color` and `color` take a color, with white and black as
/// their fallbacks. `display` takes `block`, `inline` or `none`; any
/// other identifier counts as `none`. Every other declaration changes
/// nothing.
pub open spec fn apply_declaration(style: ComputedStyle, d: DeclarationView) -> ComputedStyle {
    if d.property == "background-color"@ {
        match declared_color(d.value, Color::spec_white()) {
            Some(c) => ComputedStyle { background_color: Some(c), ..style },
            None => style,
        }
    } else if d.property == "color"@ {
        match declared_color(d.value, Color::spec_black()) {
            Some(c) => ComputedStyle { color: Some(c), ..style },
            None => style,
        }
    } else if d.property == "display"@ {
        match d.value {
            CssTokenView::Ident(v) => ComputedStyle {
                display: Some(
                    match DisplayType::spec_from_str(v) {
                        Some(t) => t,
                        None => DisplayType::DisplayNone,
                    },
                ),
                ..style
            },
            _ => style,
        }
    } else {
        style
    }
}

/// The style after the declarations have been applied to it, one after
/// the other: a later one overrides an earlier one.
pub open spec fn cascade(style: ComputedStyle, ds: Seq<DeclarationView>) -> ComputedStyle
    decreases ds.len(),
{
    if ds.len() == 0 {
        style
    } else {
        apply_declaration(cascade(style, ds.drop_last()), ds.last())
    }
}

/// The style after every rule that selects the node has been applied to
/// it, in the order of the rules.
pub open spec fn cascade_rules(
    style: ComputedStyle,
    kind: NodeKindView,
    rules: Seq<RuleView>,
) -> ComputedStyle
    decreases rules.len(),
{
    if rules.len() == 0 {
        style
    } else if selects(rules.last().selector, kind) {
        cascade(cascade_rules(style, kind, rules.drop_last()), rules.last().declarations)
    } else {
        cascade_rules(style, kind, rules.drop_last())
    }
}

/// No rule changes the style of the document or of a text.
pub proof fn lemma_rules_select_elements_only(
    style: ComputedStyle,
    kind: NodeKindView,
    rules: Seq<RuleView>,
)
    requires
        !(kind is Element),
    ensures
        cascade_rules(style, kind, rules) == style,
    decreases rules.len(),
{
    if rules.len() > 0 {
        lemma_rules_select_elements_only(style, kind, rules.drop_last());
    }
}

/// The style of a node: the rules that select it, then the defaults.
pub open spec fn resolved_style(
    kind: NodeKindView,
    parent_style: Option<ComputedStyle>,
    rules: Seq<RuleView>,
) -> ComputedStyle {
    cascade_rules(ComputedStyle::spec_new(), kind, rules).spec_defaulting(kind, parent_style)
}

/// The kind of layout object that a node with the given display becomes.
pub open spec fn kind_for(node_kind: NodeKindView, display: DisplayType) -> LayoutObjectKind {
    match node_kind {
        NodeKindView::Text(_) => LayoutObjectKind::Text,
        _ => if display == DisplayType::Inline {
            LayoutObjectKind::Inline
        } else {
            LayoutObjectKind::Block
        },
    }
}

/// A layout object as `LayoutObject::new` makes it.
pub open spec fn fresh_object(
    node: usize,
    node_kind: NodeKindView,
    parent: Option<usize>,
) -> LayoutObjectView {
    LayoutObjectView {
        kind: LayoutObjectKind::Block,
        node,
        node_kind,
        first_child: None,
        next_sibling: None,
        parent,
        style: ComputedStyle::spec_new(),
        point: LayoutPoint { x: 0, y: 0 },
        size: LayoutSize { width: 0, height: 0 },
    }
}

/// The layout object for node `node`, or `None` where there is no such
/// node or its display is `none`. `parent` is the place of the node of
/// the parent object, with the parent's style.
pub open spec fn created_object(
    nodes: Seq<NodeView>,
    node: Option<usize>,
    parent: Option<(usize, ComputedStyle)>,
    rules: Seq<RuleView>,
) -> Option<LayoutObjectView> {
    match node {
        Some(n) => if n < nodes.len() {
            let node_kind = nodes[n as int].kind;
            let style = resolved_style(
                node_kind,
                match parent {
                    Some(p) => Some(p.1),
                    None => None,
                },
                rules,
            );
            if style.spec_display() == DisplayType::DisplayNone {
                None
            } else {
                Some(
                    LayoutObjectView {
                        kind: kind_for(node_kind, style.spec_display()),
                        style,
                        ..fresh_object(
                            n,
                            node_kind,
                            match parent {
                                Some(p) => Some(p.0),
                                None => None,
                            },
                        )
                    },
                )
            }
        } else {
            None
        },
        None => None,
    }
}

/// The place and the style of an object, as its children see their parent.
pub open spec fn as_parent(o: Option<&LayoutObject>) -> Option<(usize, ComputedStyle)> {
    match o {
        Some(p) => Some((p@.node, p@.style)),
        None => None,
    }
}

/// Whether `v` is a value of `i64`.
pub open spec fn in_i64(v: int) -> bool {
    i64::MIN <= v <= i64::MAX
}

/// The height of a block whose children start at `first`: the heights of
/// the children added up, where a child counts only if it is a block or
/// follows a block, so that inline children in a row count once. `acc` is
/// the sum so far and `previous_kind` the kind of the child before
/// `first`. `None` where a sum is no value of `i64`.
pub open spec fn block_height(first: Link, previous_kind: LayoutObjectKind, acc: int) -> Option<
    int,
>
    decreases first,
{
    match first {
        None => Some(acc),
        Some(c) => {
            let sum = if previous_kind == LayoutObjectKind::Block || c.kind
                == LayoutObjectKind::Block {
                acc + c.size.height
            } else {
                acc
            };
            if in_i64(sum) {
                block_height(c.next_sibling, c.kind, sum)
            } else {
                None
            }
        },
    }
}

/// The size of an inline object whose children start at `first`: their
/// widths added up and their heights added up. `width` and `height` are
/// the sums so far. `None` where a sum is no value of `i64`.
pub open spec fn inline_size(first: Link, width: int, height: int) -> Option<LayoutSize>
    decreases first,
{
    match first {
        None => if in_i64(width) && in_i64(height) {
            Some(LayoutSize { width: width as i64, height: height as i64 })
        } else {
            None
        },
        Some(c) => if in_i64(width + c.size.width) && in_i64(height + c.size.height) {
            inline_size(c.next_sibling, width + c.size.width, height + c.size.height)
        } else {
            None
        },
    }
}

/// The size of a text of `len` characters at a font of the given ratio.
///
/// Every character is `CHAR_WIDTH * ratio` wide. A text that fits into
/// the content area is one line high. A longer one is as wide as the
/// content area, and has as many lines as that width goes into its own,
/// rounded up. `None` where a product is no value of `i64`.
pub open spec fn text_size(len: int, ratio: int) -> Option<LayoutSize> {
    let width = CHAR_WIDTH * ratio * len;
    if !in_i64(width) {
        None
    } else if width > CONTENT_AREA_WIDTH {
        let lines = if width % (CONTENT_AREA_WIDTH as int) == 0 {
            width / (CONTENT_AREA_WIDTH as int)
        } else {
            width / (CONTENT_AREA_WIDTH as int) + 1
        };
        if in_i64(CHAR_HEIGHT_WITH_PADDING * ratio * lines) {
            Some(
                LayoutSize {
                    width: CONTENT_AREA_WIDTH,
                    height: (CHAR_HEIGHT_WITH_PADDING * ratio * lines) as i64,
                },
            )
        } else {
            None
        }
    } else {
        Some(LayoutSize { width: width as i64, height: (CHAR_HEIGHT_WITH_PADDING * ratio) as i64 })
    }
}

/// The size of an object from its kind, the sizes of its children and the
/// size of its parent: a block is as wide as its parent and as high as
/// its children; an inline object is as large as its children; a text is
/// as large as its characters. `None` where a number is no value of `i64`.
pub open spec fn computed_size(o: LayoutObjectView, parent_size: LayoutSize) -> Option<LayoutSize> {
    match o.kind {
        LayoutObjectKind::Block => match block_height(o.first_child, LayoutObjectKind::Block, 0) {
            Some(h) => Some(LayoutSize { width: parent_size.width, height: h as i64 }),
            None => None,
        },
        LayoutObjectKind::Inline => inline_size(o.first_child, 0, 0),
        LayoutObjectKind::Text => match o.node_kind {
            NodeKindView::Text(t) => text_size(t.len() as int, o.style.spec_font_size().spec_ratio()),
            _ => Some(LayoutSize { width: 0, height: 0 }),
        },
    }
}

/// The position of an object of kind `kind` from the position of its
/// parent and from the kind, position and size of the sibling before it.
///
/// A block, and whatever follows a block, starts a new row: at the left
/// edge of the parent, below the sibling before it, or at the top of the
/// parent where there is none. An inline object that follows an inline
/// object stands to the right of it. Anything else stands where its
/// parent stands. `None` where a sum is no value of `i64`.
pub open spec fn computed_position(
    kind: LayoutObjectKind,
    parent_point: LayoutPoint,
    previous_sibling_kind: LayoutObjectKind,
    previous_sibling_point: Option<LayoutPoint>,
    previous_sibling_size: Option<LayoutSize>,
) -> Option<LayoutPoint> {
    if kind == LayoutObjectKind::Block || previous_sibling_kind == LayoutObjectKind::Block {
        match (previous_sibling_size, previous_sibling_point) {
            (Some(size), Some(pos)) => if in_i64(pos.y + size.height) {
                Some(LayoutPoint { x: parent_point.x, y: (pos.y + size.height) as i64 })
            } else {
                None
            },
            _ => Some(parent_point),
        }
    } else if kind == LayoutObjectKind::Inline && previous_sibling_kind
        == LayoutObjectKind::Inline {
        match (previous_sibling_size, previous_sibling_point) {
            (Some(size), Some(pos)) => if in_i64(pos.x + size.width) {
                Some(LayoutPoint { x: (pos.x + size.width) as i64, y: pos.y })
            } else {
                None
            },
            _ => Some(parent_point),
        }
    } else {
        Some(parent_point)
    }
}

/// The characters at which a text is split into words: space, line feed,
/// tab, carriage return and form feed.
pub open spec fn is_text_whitespace(c: char) -> bool {
    c == ' ' || c == '\n' || c == '\t' || c == '\r' || c == '\u{c}'
}

/// The words of a text, joined by single spaces: whitespace at both ends
/// is gone, and every other run of whitespace has become one space.
pub open spec fn squeeze(s: Seq<char>) -> Seq<char>
    decreases s.len(),
{
    if s.len() == 0 {
        Seq::empty()
    } else if is_text_whitespace(s.last()) {
        squeeze(s.drop_last())
    } else if s.len() >= 2 && is_text_whitespace(s[s.len() - 2]) && squeeze(s.drop_last()).len()
        > 0 {
        squeeze(s.drop_last()).push(' ').push(s.last())
    } else {
        squeeze(s.drop_last()).push(s.last())
    }
}

/// The first index from `from` on whose character is no whitespace, or
/// the length of `s`.
pub open spec fn first_non_space(s: Seq<char>, from: int) -> int
    decreases s.len() - from,
{
    if 0 <= from < s.len() && is_text_whitespace(s[from]) {
        first_non_space(s, from + 1)
    } else {
        from
    }
}

/// The end of `s[lo..hi]` without the whitespace at its end.
pub open spec fn last_non_space_end(s: Seq<char>, lo: int, hi: int) -> int
    decreases hi,
{
    if lo < hi <= s.len() && 0 < hi && is_text_whitespace(s[hi - 1]) {
        last_non_space_end(s, lo, hi - 1)
    } else {
        hi
    }
}

/// `s` without the whitespace at its start and at its end.
pub open spec fn trim(s: Seq<char>) -> Seq<char> {
    let a = first_non_space(s, 0);
    let b = last_non_space_end(s, a, s.len() as int);
    if 0 <= a <= b <= s.len() {
        s.subrange(a, b)
    } else {
        Seq::empty()
    }
}

pub proof fn lemma_first_non_space(s: Seq<char>, from: int)
    requires
        0 <= from <= s.len(),
    ensures
        from <= first_non_space(s, from) <= s.len(),
        forall|k: int| from <= k < first_non_space(s, from) ==> is_text_whitespace(#[trigger] s[k]),
        first_non_space(s, from) < s.len() ==> !is_text_whitespace(s[first_non_space(s, from)]),
    decreases s.len() - from,
{
    if from < s.len() && is_text_whitespace(s[from]) {
        lemma_first_non_space(s, from + 1);
    }
}

pub proof fn lemma_last_non_space_end(s: Seq<char>, lo: int, hi: int)
    requires
        0 <= lo <= hi <= s.len(),
    ensures
        lo <= last_non_space_end(s, lo, hi) <= hi,
        forall|k: int|
            last_non_space_end(s, lo, hi) <= k < hi ==> is_text_whitespace(#[trigger] s[k]),
        lo < last_non_space_end(s, lo, hi) ==> !is_text_whitespace(
            s[last_non_space_end(s, lo, hi) - 1],
        ),
    decreases hi,
{
    if lo < hi && is_text_whitespace(s[hi - 1]) {
        lemma_last_non_space_end(s, lo, hi - 1);
    }
}

/// A trimmed text is no longer than the text, and shorter where the text
/// starts with whitespace.
pub proof fn lemma_trim_len(s: Seq<char>)
    ensures
        trim(s).len() <= s.len(),
        s.len() > 0 && is_text_whitespace(s[0]) ==> trim(s).len() < s.len(),
{
    lemma_first_non_space(s, 0);
    lemma_last_non_space_end(s, first_non_space(s, 0), s.len() as int);
    if s.len() > 0 && is_text_whitespace(s[0]) {
        lemma_first_non_space(s, 1);
    }
}

/// The place at which a line is broken: the last space before
/// `max_index`, found by going down from `i`, or `max_index` where
/// there is none.
pub open spec fn break_index_below(line: Seq<char>, max_index: int, i: int) -> int
    decreases i,
{
    if i <= 0 {
        max_index
    } else if i - 1 < line.len() && line[i - 1] == ' ' {
        i - 1
    } else {
        break_index_below(line, max_index, i - 1)
    }
}

/// The place at which a line is broken: the last space before
/// `max_index`, or `max_index` where there is none.
pub open spec fn break_index(line: Seq<char>, max_index: int) -> int {
    break_index_below(line, max_index, max_index)
}

/// `break_index` is the largest index below `max_index` that holds a
/// space, or `max_index` where no index below it holds one.
pub proof fn lemma_break_index(line: Seq<char>, max_index: int, i: int)
    requires
        0 <= i <= max_index <= line.len(),
    ensures
        ({
            let r = break_index_below(line, max_index, i);
            &&& (r == max_index || (0 <= r < i && line[r] == ' '))
            &&& forall|j: int| 0 <= j < i && j > r ==> line[j] != ' '
            &&& r == max_index ==> forall|j: int| 0 <= j < i ==> line[j] != ' '
        }),
    decreases i,
{
    if i > 0 && line[i - 1] != ' ' {
        lemma_break_index(line, max_index, i - 1);
    }
}

/// The widest a line may be: `WINDOW_WIDTH + WINDOW_PADDING`.
pub open spec fn line_limit() -> int {
    WINDOW_WIDTH + WINDOW_PADDING
}

/// The lines into which a text is wrapped, where one character is
/// `char_width` wide.
///
/// A text that is no wider than the limit is one line. A wider one is
/// broken at the last space among its first `limit / char_width`
/// characters, or behind that many characters where there is no space
/// among them; what follows is trimmed and wrapped in the same way.
pub open spec fn split_lines(line: Seq<char>, char_width: int) -> Seq<Seq<char>>
    decreases line.len(),
    via split_lines_decreases
{
    if 1 <= char_width <= line_limit() && line.len() * char_width > line_limit() {
        seq![line.take(break_index(line, line_limit() / char_width))] + split_lines(
            trim(line.skip(break_index(line, line_limit() / char_width))),
            char_width,
        )
    } else {
        seq![line]
    }
}

#[via_fn]
proof fn split_lines_decreases(line: Seq<char>, char_width: int) {
    if 1 <= char_width <= line_limit() && line.len() * char_width > line_limit() {
        lemma_split_progress(line, char_width);
    }
}

/// Where a text is too wide for one line, the break lies inside it, and
/// what follows the first line is shorter than the text.
pub proof fn lemma_split_progress(line: Seq<char>, char_width: int)
    requires
        1 <= char_width <= line_limit(),
        line.len() * char_width > line_limit(),
    ensures
        1 <= line_limit() / char_width < line.len(),
        0 <= break_index(line, line_limit() / char_width) <= line_limit() / char_width,
        trim(line.skip(break_index(line, line_limit() / char_width))).len() < line.len(),
{
    let max_index = line_limit() / char_width;
    let len = line.len() as int;
    assert(1 <= max_index && max_index < len) by (nonlinear_arith)
        requires
            1 <= char_width <= line_limit(),
            len * char_width > line_limit(),
            max_index == line_limit() / char_width,
            line_limit() == 605,
    ;
    lemma_break_index(line, max_index, max_index);
    let i = break_index(line, max_index);
    let rest = line.skip(i);
    lemma_trim_len(rest);
    if i == 0 {
        assert(rest[0] == line[0]);
    }
}

/// How many lines a text is wrapped into: at least one, and no more than
/// it has characters, but for the one line of an empty text.
pub proof fn lemma_split_lines_len(line: Seq<char>, char_width: int)
    ensures
        1 <= split_lines(line, char_width).len() <= line.len() + 1,
    decreases line.len(),
{
    if 1 <= char_width <= line_limit() && line.len() * char_width > line_limit() {
        lemma_split_progress(line, char_width);
        lemma_split_lines_len(
            trim(line.skip(break_index(line, line_limit() / char_width))),
            char_width,
        );
    }
}

/// The text items of the lines: line `i` stands
/// `CHAR_HEIGHT_WITH_PADDING * i` below `point`.
pub open spec fn text_items(
    lines: Seq<Seq<char>>,
    style: ComputedStyle,
    point: LayoutPoint,
) -> Seq<DisplayItemView> {
    Seq::new(
        lines.len(),
        |i: int|
            DisplayItemView::Text {
                text: lines[i],
                style,
                layout_point: LayoutPoint {
                    x: point.x,
                    y: (point.y + CHAR_HEIGHT_WITH_PADDING * i) as i64,
                },
            },
    )
}

/// What one object paints, without what its children paint.
///
/// Nothing where the display is `none`. A block that is an element
/// paints one rectangle. An inline object paints nothing. A text paints
/// its words, joined by single spaces and wrapped into lines, one item a
/// line. `None` where the place of a line is no value of `i64`.
pub open spec fn painted(o: LayoutObjectView) -> Option<Seq<DisplayItemView>> {
    if o.style.spec_display() == DisplayType::DisplayNone {
        Some(Seq::empty())
    } else {
        match o.kind {
            LayoutObjectKind::Block => if o.node_kind is Element {
                Some(
                    seq![
                        DisplayItemView::Rect {
                            style: o.style,
                            layout_point: o.point,
                            layout_size: o.size,
                        },
                    ],
                )
            } else {
                Some(Seq::empty())
            },
            LayoutObjectKind::Inline => Some(Seq::empty()),
            LayoutObjectKind::Text => match o.node_kind {
                NodeKindView::Text(t) => {
                    let lines = split_lines(
                        squeeze(t),
                        CHAR_WIDTH * o.style.spec_font_size().spec_ratio(),
                    );
                    if in_i64(o.point.y + CHAR_HEIGHT_WITH_PADDING * (lines.len() - 1)) {
                        Some(text_items(lines, o.style, o.point))
                    } else {
                        None
                    }
                },
                _ => Some(Seq::empty()),
            },
        }
    }
}

/// The views of a sequence of strings, in the same order.
pub open spec fn lines_view(lines: Seq<String>) -> Seq<Seq<char>> {
    lines.map_values(|l: String| l@)
}

/// A layout tree after a pass over it, and whether every number of the
/// pass was a value of `i64`. Where it was not, the tree says nothing.
pub struct Laid {
    pub ok: bool,
    pub tree: Link,
}

/// The size that an object hands to its children as their parent's size:
/// a block is as wide as its own parent before its children are sized;
/// any other object hands on the size that it has so far.
pub open spec fn size_for_children(o: LayoutObjectView, parent_size: LayoutSize) -> LayoutSize {
    if o.kind == LayoutObjectKind::Block {
        LayoutSize { width: parent_size.width, height: o.size.height }
    } else {
        o.size
    }
}

/// The objects from `l` on with their sizes set: those below an object
/// and those beside it first, then the object itself from them.
pub open spec fn sized(l: Link, parent_size: LayoutSize) -> Laid
    decreases l,
{
    match l {
        None => Laid { ok: true, tree: None },
        Some(n) => {
            let children = sized(n.first_child, size_for_children(*n, parent_size));
            let siblings = sized(n.next_sibling, parent_size);
            let o = LayoutObjectView {
                first_child: children.tree,
                next_sibling: siblings.tree,
                size: size_for_children(*n, parent_size),
                ..*n
            };
            match computed_size(o, parent_size) {
                Some(size) => Laid {
                    ok: children.ok && siblings.ok,
                    tree: Some(Box::new(LayoutObjectView { size, ..o })),
                },
                None => Laid { ok: false, tree: l },
            }
        },
    }
}

/// The objects from `l` on with their positions set: an object first,
/// then those below it, which start where it stands, then those beside
/// it, which follow it.
pub open spec fn positioned(
    l: Link,
    parent_point: LayoutPoint,
    previous_sibling_kind: LayoutObjectKind,
    previous_sibling_point: Option<LayoutPoint>,
    previous_sibling_size: Option<LayoutSize>,
) -> Laid
    decreases l,
{
    match l {
        None => Laid { ok: true, tree: None },
        Some(n) => match computed_position(
            n.kind,
            parent_point,
            previous_sibling_kind,
            previous_sibling_point,
            previous_sibling_size,
        ) {
            Some(point) => {
                let children = positioned(
                    n.first_child,
                    point,
                    LayoutObjectKind::Block,
                    None,
                    None,
                );
                let siblings = positioned(
                    n.next_sibling,
                    parent_point,
                    n.kind,
                    Some(point),
                    Some(n.size),
                );
                Laid {
                    ok: children.ok && siblings.ok,
                    tree: Some(
                        Box::new(
                            LayoutObjectView {
                                first_child: children.tree,
                                next_sibling: siblings.tree,
                                point,
                                ..*n
                            },
                        ),
                    ),
                }
            },
            None => Laid { ok: false, tree: l },
        },
    }
}

/// What the objects from `l` on paint: an object first, then those
/// below it, then those beside it. `None` where the place of a line of
/// text is no value of `i64`.
pub open spec fn painted_tree(l: Link) -> Option<Seq<DisplayItemView>>
    decreases l,
{
    match l {
        None => Some(Seq::empty()),
        Some(n) => match (painted(*n), painted_tree(n.first_child), painted_tree(n.next_sibling)) {
            (Some(own), Some(below), Some(beside)) => Some(own + below + beside),
            _ => None,
        },
    }
}

/// The color for a declared value; see [`declared_color`].
fn color_of_value(value: &ComponentValue, fallback: Color) -> (r: Option<Color>)
    ensures
        r == declared_color(value@, fallback),
{
    match value {
        ComponentValue::Ident(name) => Some(
            match Color::from_name(name.as_str()) {
                Ok(c) => c,
                Err(_) => fallback,
            },
        ),
        ComponentValue::HashToken(code) => Some(
            match Color::from_code(code.as_str()) {
                Ok(c) => c,
                Err(_) => fallback,
            },
        ),
        _ => None,
    }
}

impl LayoutObject {
    /// A block at the origin, of size zero and without style, for node
    /// `node` of `window`, below `parent_obj`.
    pub fn new(window: &Window, node: usize, parent_obj: Option<&LayoutObject>) -> (o: Self)
        requires
            node < window@.nodes.len(),
        ensures
            o@ == fresh_object(
                node,
                window@.nodes[node as int].kind,
                match parent_obj {
                    Some(p) => Some(p@.node),
                    None => None,
                },
            ),
    {
        let parent = match parent_obj {
            Some(p) => Some(p.node),
            None => None,
        };
        Self {
            kind: LayoutObjectKind::Block,
            node,
            node_kind: window.node(node).kind(),
            first_child: None,
            next_sibling: None,
            parent,
            style: ComputedStyle::new(),
            point: LayoutPoint::new(0, 0),
            size: LayoutSize::new(0, 0),
        }
    }

    pub fn kind(&self) -> (k: LayoutObjectKind)
        ensures
            k == self@.kind,
    {
        self.kind
    }

    /// The place of the node in its window.
    pub fn node(&self) -> (n: usize)
        ensures
            n == self@.node,
    {
        self.node
    }

    pub fn node_kind(&self) -> (k: NodeKind)
        ensures
            k@ == self@.node_kind,
    {
        self.node_kind.clone()
    }

    pub fn set_first_child(&mut self, first_child: Option<LayoutObject>)
        ensures
            final(self)@ == (LayoutObjectView {
                first_child: match first_child {
                    Some(c) => Some(Box::new(c@)),
                    None => None,
                },
                ..old(self)@
            }),
    {
        self.first_child = match first_child {
            Some(c) => Some(Box::new(c)),
            None => None,
        };
    }

    pub fn first_child(&self) -> (c: Option<&LayoutObject>)
        ensures
            match c {
                Some(x) => self@.first_child == Some(Box::new(x@)),
                None => self@.first_child is None,
            },
    {
        match &self.first_child {
            Some(c) => Some(&**c),
            None => None,
        }
    }

    pub fn set_next_sibling(&mut self, next_sibling: Option<LayoutObject>)
        ensures
            final(self)@ == (LayoutObjectView {
                next_sibling: match next_sibling {
                    Some(c) => Some(Box::new(c@)),
                    None => None,
                },
                ..old(self)@
            }),
    {
        self.next_sibling = match next_sibling {
            Some(c) => Some(Box::new(c)),
            None => None,
        };
    }

    pub fn next_sibling(&self) -> (c: Option<&LayoutObject>)
        ensures
            match c {
                Some(x) => self@.next_sibling == Some(Box::new(x@)),
                None => self@.next_sibling is None,
            },
    {
        match &self.next_sibling {
            Some(c) => Some(&**c),
            None => None,
        }
    }

    /// The place, in the window, of the node of the parent object.
    pub fn parent(&self) -> (p: Option<usize>)
        ensures
            p == self@.parent,
    {
        self.parent
    }

    pub fn style(&self) -> (s: ComputedStyle)
        ensures
            s == self@.style,
    {
        self.style
    }

    pub fn point(&self) -> (p: LayoutPoint)
        ensures
            p == self@.point,
    {
        self.point
    }

    pub fn size(&self) -> (s: LayoutSize)
        ensures
            s == self@.size,
    {
        self.size
    }

    /// Whether `selector` selects the node of this object.
    pub fn is_node_selected(&self, selector: &Selector) -> (r: bool)
        ensures
            r == selects(selector@, self@.node_kind),
    {
        match &self.node_kind {
            NodeKind::Element(e) => match selector {
                Selector::TypeSelector(tag_name) => {
                    let name = e.kind().name();
                    name == *tag_name
                },
                Selector::ClassSelector(class_value) => e.has_attribute(
                    "class",
                    class_value.as_str(),
                ),
                Selector::IdSelector(id_value) => e.has_attribute("id", id_value.as_str()),
                Selector::UnknownSelector => false,
            },
            _ => false,
        }
    }

    /// Applies the declarations to the style, one after the other.
    pub fn cascading_style(&mut self, declarations: Vec<Declaration>)
        ensures
            final(self)@ == (LayoutObjectView {
                style: cascade(old(self)@.style, declarations_view(declarations@)),
                ..old(self)@
            }),
    {
        let ghost all = declarations_view(declarations@);
        let ghost start = self.style;
        let mut i: usize = 0;
        assert(all.take(0) =~= Seq::empty());
        while i < declarations.len()
            invariant
                i <= declarations.len(),
                all == declarations_view(declarations@),
                self@ == (LayoutObjectView {
                    style: cascade(start, all.take(i as int)),
                    ..old(self)@
                }),
            decreases declarations.len() - i,
        {
            let declaration = &declarations[i];
            assert(all.take(i + 1).drop_last() =~= all.take(i as int));
            assert(all.take(i + 1).last() == declaration@);
            if str_eq(declaration.property.as_str(), "background-color") {
                match color_of_value(&declaration.value, Color::white()) {
                    Some(color) => {
                        self.style.set_background_color(color);
                    },
                    None => {},
                }
            } else if str_eq(declaration.property.as_str(), "color") {
                match color_of_value(&declaration.value, Color::black()) {
                    Some(color) => {
                        self.style.set_color(color);
                    },
                    None => {},
                }
            } else if str_eq(declaration.property.as_str(), "display") {
                match &declaration.value {
                    ComponentValue::Ident(value) => {
                        let display_type = match DisplayType::from_str(value.as_str()) {
                            Ok(display_type) => display_type,
                            Err(_) => DisplayType::DisplayNone,
                        };
                        self.style.set_display(display_type);
                    },
                    _ => {},
                }
            }
            i += 1;
        }
        assert(all.take(declarations.len() as int) =~= all);
    }

    /// Fills in every property of the style that no declaration has set.
    pub fn defaulting_style(&mut self, parent_style: Option<ComputedStyle>)
        ensures
            final(self)@ == (LayoutObjectView {
                style: old(self)@.style.spec_defaulting(old(self)@.node_kind, parent_style),
                ..old(self)@
            }),
    {
        self.style.defaulting(&self.node_kind, parent_style);
    }

    /// Sets the kind from the node and the display of the style. The
    /// node is not the document and the display is not `none`: such a
    /// node has no layout object.
    pub fn update_kind(&mut self)
        requires
            !(old(self)@.node_kind is Document),
            old(self)@.style.spec_display() != DisplayType::DisplayNone,
        ensures
            final(self)@ == (LayoutObjectView {
                kind: kind_for(old(self)@.node_kind, old(self)@.style.spec_display()),
                ..old(self)@
            }),
    {
        match &self.node_kind {
            NodeKind::Document => {},
            NodeKind::Element(_) => {
                match self.style.display() {
                    DisplayType::Block => {
                        self.kind = LayoutObjectKind::Block;
                    },
                    DisplayType::Inline => {
                        self.kind = LayoutObjectKind::Inline;
                    },
                    DisplayType::DisplayNone => {},
                }
            },
            NodeKind::Text(_) => {
                self.kind = LayoutObjectKind::Text;
            },
        }
    }

    /// What this object paints, without what its children paint; `None`
    /// where the place of a line of text is no value of `i64`.
    pub fn try_paint(&self) -> (items: Option<Vec<DisplayItem>>)
        ensures
            match painted(self@) {
                Some(v) => items matches Some(x) && items_view(x@) == v,
                None => items is None,
            },
    {
        let mut v: Vec<DisplayItem> = Vec::new();
        assert(items_view(v@) =~= Seq::empty());
        if self.style.display() == DisplayType::DisplayNone {
            return Some(v);
        }
        match self.kind {
            LayoutObjectKind::Block => {
                match &self.node_kind {
                    NodeKind::Element(_e) => {
                        v.push(
                            DisplayItem::Rect {
                                style: self.style(),
                                layout_point: self.point(),
                                layout_size: self.size(),
                            },
                        );
                        assert(items_view(v@) =~= seq![
                            DisplayItemView::Rect {
                                style: self@.style,
                                layout_point: self@.point,
                                layout_size: self@.size,
                            },
                        ]);
                    },
                    _ => {},
                }
            },
            LayoutObjectKind::Inline => {},
            LayoutObjectKind::Text => {
                match &self.node_kind {
                    NodeKind::Text(t) => {
                        let ratio = self.style.font_size().ratio();
                        let chars = chars_of(t.as_str());
                        let plain_text = crate::utils::string_of(&squeeze_text(&chars));
                        let lines = split_text(plain_text, CHAR_WIDTH * ratio);
                        let ghost all = lines_view(lines@);
                        proof {
                            lemma_split_lines_len(squeeze(t@), CHAR_WIDTH * ratio);
                            assert(lines@.len() == all.len());
                        }
                        let last: i128 = self.point.y() as i128 + CHAR_HEIGHT_WITH_PADDING as i128
                            * (lines.len() as i128 - 1);
                        if last > i64::MAX as i128 {
                            return None;
                        }
                        let mut i: usize = 0;
                        let mut lines = lines;
                        let ghost wanted = text_items(all, self@.style, self@.point);
                        while i < lines.len()
                            invariant
                                i <= lines.len(),
                                lines.len() == all.len(),
                                forall|k: int| i <= k < lines.len() ==> lines@[k]@ == all[k],
                                self.point.y + CHAR_HEIGHT_WITH_PADDING * (lines.len() - 1)
                                    <= i64::MAX,
                                wanted == text_items(all, self@.style, self@.point),
                                items_view(v@) == wanted.take(i as int),
                            decreases lines.len() - i,
                        {
                            let ghost before = items_view(v@);
                            let mut line = String::new();
                            let ghost line_view = lines@[i as int]@;
                            core::mem::swap(&mut line, &mut lines[i]);
                            let y: i128 = self.point().y() as i128
                                + CHAR_HEIGHT_WITH_PADDING as i128 * (i as i128);
                            let item = DisplayItem::Text {
                                text: line,
                                style: self.style(),
                                layout_point: LayoutPoint::new(self.point().x(), y as i64),
                            };
                            v.push(item);
                            assert(items_view(v@) =~= before.push(wanted[i as int]));
                            assert(wanted.take(i + 1) =~= wanted.take(i as int).push(
                                wanted[i as int],
                            ));
                            i += 1;
                        }
                        assert(wanted.take(lines.len() as int) =~= wanted);
                    },
                    _ => {},
                }
            },
        }
        Some(v)
    }

    /// What this object paints, without what its children paint. The
    /// place of every line of text fits into `i64`.
    pub fn paint(&self) -> (items: Vec<DisplayItem>)
        requires
            painted(self@) is Some,
        ensures
            items_view(items@) == painted(self@)->0,
    {
        match self.try_paint() {
            Some(items) => items,
            None => Vec::new(),
        }
    }

    /// Sets the size from the kind, the children and the parent's size,
    /// where every number fits; else changes nothing and says so.
    pub fn try_compute_size(&mut self, parent_size: LayoutSize) -> (ok: bool)
        ensures
            ok == computed_size(old(self)@, parent_size) is Some,
            ok ==> final(self)@ == (LayoutObjectView {
                size: computed_size(old(self)@, parent_size)->0,
                ..old(self)@
            }),
            !ok ==> final(self)@ == old(self)@,
    {
        let size = match self.kind {
            LayoutObjectKind::Block => {
                let mut height: i128 = 0;
                let mut child = &self.first_child;
                let mut previous_child_kind = LayoutObjectKind::Block;
                loop
                    invariant
                        *self == *old(self),
                        self@.kind == LayoutObjectKind::Block,
                        in_i64(height as int),
                        block_height(link_view(*child), previous_child_kind, height as int)
                            == block_height(old(self)@.first_child, LayoutObjectKind::Block, 0),
                    ensures
                        block_height(old(self)@.first_child, LayoutObjectKind::Block, 0) == Some(
                            height as int,
                        ),
                        in_i64(height as int),
                    decreases *child,
                {
                    match child {
                        None => {
                            break ;
                        },
                        Some(c) => {
                            if previous_child_kind == LayoutObjectKind::Block || c.kind
                                == LayoutObjectKind::Block {
                                height = height + c.size.height as i128;
                                if height > i64::MAX as i128 || height < i64::MIN as i128 {
                                    return false;
                                }
                            }
                            previous_child_kind = c.kind;
                            child = &c.next_sibling;
                        },
                    }
                }
                LayoutSize::new(parent_size.width(), height as i64)
            },
            LayoutObjectKind::Inline => {
                let mut width: i128 = 0;
                let mut height: i128 = 0;
                let mut child = &self.first_child;
                loop
                    invariant
                        *self == *old(self),
                        self@.kind == LayoutObjectKind::Inline,
                        in_i64(width as int),
                        in_i64(height as int),
                        inline_size(link_view(*child), width as int, height as int) == inline_size(
                            old(self)@.first_child,
                            0,
                            0,
                        ),
                    ensures
                        inline_size(old(self)@.first_child, 0, 0) == Some(
                            LayoutSize { width: width as i64, height: height as i64 },
                        ),
                        in_i64(width as int),
                        in_i64(height as int),
                    decreases *child,
                {
                    match child {
                        None => {
                            break ;
                        },
                        Some(c) => {
                            width = width + c.size.width as i128;
                            height = height + c.size.height as i128;
                            if width > i64::MAX as i128 || width < i64::MIN as i128 || height
                                > i64::MAX as i128 || height < i64::MIN as i128 {
                                return false;
                            }
                            child = &c.next_sibling;
                        },
                    }
                }
                LayoutSize::new(width as i64, height as i64)
            },
            LayoutObjectKind::Text => {
                match &self.node_kind {
                    NodeKind::Text(t) => {
                        let ratio = self.style.font_size().ratio();
                        let len = t.as_str().unicode_len();
                        match text_size_of(len, ratio) {
                            Some(size) => size,
                            None => {
                                return false;
                            },
                        }
                    },
                    _ => LayoutSize::new(0, 0),
                }
            },
        };
        self.size = size;
        true
    }

    /// Sets the size from the kind, the children and the parent's size.
    /// Every number on the way fits into `i64`.
    pub fn compute_size(&mut self, parent_size: LayoutSize)
        requires
            computed_size(old(self)@, parent_size) is Some,
        ensures
            final(self)@ == (LayoutObjectView {
                size: computed_size(old(self)@, parent_size)->0,
                ..old(self)@
            }),
    {
        self.try_compute_size(parent_size);
    }

    /// Sets the position from the position of the parent and from the
    /// sibling before this object, where every number fits; else changes
    /// nothing and says so.
    pub fn try_compute_position(
        &mut self,
        parent_point: LayoutPoint,
        previous_sibling_kind: LayoutObjectKind,
        previous_sibling_point: Option<LayoutPoint>,
        previous_sibling_size: Option<LayoutSize>,
    ) -> (ok: bool)
        ensures
            ok == computed_position(
                old(self)@.kind,
                parent_point,
                previous_sibling_kind,
                previous_sibling_point,
                previous_sibling_size,
            ) is Some,
            ok ==> final(self)@ == (LayoutObjectView {
                point: computed_position(
                    old(self)@.kind,
                    parent_point,
                    previous_sibling_kind,
                    previous_sibling_point,
                    previous_sibling_size,
                )->0,
                ..old(self)@
            }),
            !ok ==> final(self)@ == old(self)@,
    {
        match position_of(
            self.kind,
            parent_point,
            previous_sibling_kind,
            previous_sibling_point,
            previous_sibling_size,
        ) {
            Some(point) => {
                self.point = point;
                true
            },
            None => false,
        }
    }

    /// Sets the position from the position of the parent and from the
    /// sibling before this object. Every number on the way fits into `i64`.
    pub fn compute_position(
        &mut self,
        parent_point: LayoutPoint,
        previous_sibling_kind: LayoutObjectKind,
        previous_sibling_point: Option<LayoutPoint>,
        previous_sibling_size: Option<LayoutSize>,
    )
        requires
            computed_position(
                old(self)@.kind,
                parent_point,
                previous_sibling_kind,
                previous_sibling_point,
                previous_sibling_size,
            ) is Some,
        ensures
            final(self)@ == (LayoutObjectView {
                point: computed_position(
                    old(self)@.kind,
                    parent_point,
                    previous_sibling_kind,
                    previous_sibling_point,
                    previous_sibling_size,
                )->0,
                ..old(self)@
            }),
    {
        self.try_compute_position(
            parent_point,
            previous_sibling_kind,
            previous_sibling_point,
            previous_sibling_size,
        );
    }
}

/// The position of an object; see [`computed_position`].
pub fn position_of(
    kind: LayoutObjectKind,
    parent_point: LayoutPoint,
    previous_sibling_kind: LayoutObjectKind,
    previous_sibling_point: Option<LayoutPoint>,
    previous_sibling_size: Option<LayoutSize>,
) -> (r: Option<LayoutPoint>)
    ensures
        r == computed_position(
            kind,
            parent_point,
            previous_sibling_kind,
            previous_sibling_point,
            previous_sibling_size,
        ),
{
    let mut point = LayoutPoint::new(parent_point.x(), parent_point.y());
    if kind == LayoutObjectKind::Block || previous_sibling_kind == LayoutObjectKind::Block {
        match (previous_sibling_size, previous_sibling_point) {
            (Some(size), Some(pos)) => {
                let y: i128 = pos.y() as i128 + size.height() as i128;
                if y > i64::MAX as i128 || y < i64::MIN as i128 {
                    return None;
                }
                point.set_y(y as i64);
            },
            _ => {},
        }
    } else if kind == LayoutObjectKind::Inline && previous_sibling_kind
        == LayoutObjectKind::Inline {
        match (previous_sibling_size, previous_sibling_point) {
            (Some(size), Some(pos)) => {
                let x: i128 = pos.x() as i128 + size.width() as i128;
                if x > i64::MAX as i128 || x < i64::MIN as i128 {
                    return None;
                }
                point.set_x(x as i64);
                point.set_y(pos.y());
            },
            _ => {},
        }
    }
    Some(point)
}

/// The size of a text of `len` characters; see [`text_size`].
pub fn text_size_of(len: usize, ratio: i64) -> (r: Option<LayoutSize>)
    requires
        1 <= ratio <= 3,
    ensures
        r == text_size(len as int, ratio as int),
{
    let unit: u128 = CHAR_WIDTH as u128 * ratio as u128;
    assert(unit * len <= 24 * usize::MAX && unit * len == CHAR_WIDTH * ratio * len)
        by (nonlinear_arith)
        requires
            unit == CHAR_WIDTH * ratio,
            0 <= unit <= 24,
            0 <= len <= usize::MAX,
    ;
    let width: u128 = unit * len as u128;
    if width > i64::MAX as u128 {
        return None;
    }
    if width > CONTENT_AREA_WIDTH as u128 {
        let line_num: u128 = if width % (CONTENT_AREA_WIDTH as u128) == 0 {
            width / (CONTENT_AREA_WIDTH as u128)
        } else {
            width / (CONTENT_AREA_WIDTH as u128) + 1
        };
        let line_height: u128 = CHAR_HEIGHT_WITH_PADDING as u128 * ratio as u128;
        assert(line_height * line_num <= 60 * (i64::MAX + 1) && line_height * line_num
            == CHAR_HEIGHT_WITH_PADDING * ratio * line_num) by (nonlinear_arith)
            requires
                line_height == CHAR_HEIGHT_WITH_PADDING * ratio,
                0 <= line_height <= 60,
                0 <= line_num <= i64::MAX + 1,
        ;
        let height: u128 = line_height * line_num;
        if height > i64::MAX as u128 {
            return None;
        }
        Some(LayoutSize::new(CONTENT_AREA_WIDTH, height as i64))
    } else {
        Some(LayoutSize::new(width as i64, CHAR_HEIGHT_WITH_PADDING * ratio))
    }
}

pub fn char_is_text_whitespace(c: char) -> (r: bool)
    ensures
        r == is_text_whitespace(c),
{
    c == ' ' || c == '\n' || c == '\t' || c == '\r' || c == '\u{c}'
}

/// The words of `text`, joined by single spaces.
pub fn squeeze_text(text: &Vec<char>) -> (out: Vec<char>)
    ensures
        out@ == squeeze(text@),
{
    let mut out: Vec<char> = Vec::new();
    let mut i: usize = 0;
    assert(text@.take(0) =~= Seq::empty());
    while i < text.len()
        invariant
            i <= text.len(),
            out@ == squeeze(text@.take(i as int)),
        decreases text.len() - i,
    {
        let c = text[i];
        let ghost prefix = text@.take(i + 1);
        assert(prefix.drop_last() =~= text@.take(i as int));
        assert(prefix.last() == c);
        if !char_is_text_whitespace(c) {
            if i >= 1 && char_is_text_whitespace(text[i - 1]) && out.len() > 0 {
                assert(prefix[prefix.len() - 2] == text@[i - 1]);
                out.push(' ');
            }
            out.push(c);
        }
        i += 1;
    }
    assert(text@.take(text.len() as int) =~= text@);
    out
}

/// `text[from..]` without the whitespace at its start and at its end.
pub fn trim_from(text: &Vec<char>, from: usize) -> (out: Vec<char>)
    requires
        from <= text.len(),
    ensures
        out@ == trim(text@.skip(from as int)),
{
    let ghost rest = text@.skip(from as int);
    let mut a: usize = from;
    while a < text.len() && char_is_text_whitespace(text[a])
        invariant
            from <= a <= text.len(),
            rest == text@.skip(from as int),
            first_non_space(rest, a - from) == first_non_space(rest, 0),
        decreases text.len() - a,
    {
        assert(rest[a - from] == text@[a as int]);
        a += 1;
    }
    proof {
        if a < text.len() {
            assert(rest[a - from] == text@[a as int]);
        }
    }
    let mut b: usize = text.len();
    while b > a && char_is_text_whitespace(text[b - 1])
        invariant
            from <= a <= b <= text.len(),
            rest == text@.skip(from as int),
            last_non_space_end(rest, a - from, b - from) == last_non_space_end(
                rest,
                a - from,
                rest.len() as int,
            ),
        decreases b,
    {
        assert(rest[b - 1 - from] == text@[b - 1]);
        b -= 1;
    }
    proof {
        if b > a {
            assert(rest[b - 1 - from] == text@[b - 1]);
        }
    }
    let mut out: Vec<char> = Vec::new();
    let mut i: usize = a;
    while i < b
        invariant
            a <= i <= b <= text.len(),
            out@ == text@.subrange(a as int, i as int),
        decreases b - i,
    {
        out.push(text[i]);
        i += 1;
        assert(text@.subrange(a as int, i as int) =~= text@.subrange(a as int, i - 1).push(
            text@[i - 1],
        ));
    }
    assert(text@.subrange(a as int, b as int) =~= rest.subrange(a - from, b - from));
    out
}

/// The place at which `line` is broken; see [`break_index`].
pub fn line_break_index(line: &Vec<char>, max_index: usize) -> (r: usize)
    requires
        max_index <= line.len(),
    ensures
        r == break_index(line@, max_index as int),
        r <= max_index,
{
    let mut i: usize = max_index;
    while i > 0
        invariant
            i <= max_index <= line.len(),
            break_index_below(line@, max_index as int, i as int) == break_index(
                line@,
                max_index as int,
            ),
        decreases i,
    {
        if line[i - 1] == ' ' {
            return i - 1;
        }
        i -= 1;
    }
    max_index
}

/// The place at which `line` is broken: the largest index below
/// `max_index` that holds a space, or `max_index` where no index below
/// it holds one. `max_index` is no larger than the number of characters.
pub fn find_index_for_line_break(line: String, max_index: usize) -> (r: usize)
    requires
        max_index <= line@.len(),
    ensures
        r == break_index(line@, max_index as int),
        r == max_index || (r < max_index && line@[r as int] == ' '),
        forall|j: int| r < j < max_index ==> line@[j] != ' ',
        r == max_index ==> forall|j: int| 0 <= j < max_index ==> line@[j] != ' ',
{
    let chars = chars_of(line.as_str());
    proof {
        lemma_break_index(line@, max_index as int, max_index as int);
    }
    line_break_index(&chars, max_index)
}

/// Wraps `line` into lines, where one character is `char_width` wide;
/// see [`split_lines`]. A character is at least 1 wide and no wider than
/// a line may be.
pub fn split_text(line: String, char_width: i64) -> (result: Vec<String>)
    requires
        1 <= char_width <= line_limit(),
    ensures
        lines_view(result@) == split_lines(line@, char_width as int),
{
    let mut result: Vec<String> = Vec::new();
    let mut current = chars_of(line.as_str());
    let limit: i64 = WINDOW_WIDTH + WINDOW_PADDING;
    let max_index: usize = (limit / char_width) as usize;
    assert(lines_view(result@) =~= Seq::empty());
    loop
        invariant_except_break
            split_lines(line@, char_width as int) == lines_view(result@) + split_lines(
                current@,
                char_width as int,
            ),
        invariant
            1 <= char_width <= line_limit(),
            limit == line_limit(),
            max_index == line_limit() / (char_width as int),
        ensures
            lines_view(result@) == split_lines(line@, char_width as int),
        decreases current.len(),
    {
        let ghost before = lines_view(result@);
        let ghost cur = current@;
        assert(current.len() * char_width <= usize::MAX * 605) by (nonlinear_arith)
            requires
                0 <= current.len() <= usize::MAX,
                1 <= char_width <= 605,
        ;
        if current.len() as i128 * char_width as i128 > limit as i128 {
            proof {
                lemma_split_progress(cur, char_width as int);
            }
            let i = line_break_index(&current, max_index);
            result.push(string_of_range(&current, 0, i));
            current = trim_from(&current, i);
            proof {
                assert(cur.subrange(0, i as int) =~= cur.take(i as int));
                assert(lines_view(result@) =~= before.push(cur.take(i as int)));
                assert(before + (seq![cur.take(i as int)] + split_lines(
                    current@,
                    char_width as int,
                )) =~= before.push(cur.take(i as int)) + split_lines(current@, char_width as int));
            }
        } else {
            result.push(string_of_range(&current, 0, current.len()));
            proof {
                assert(cur.subrange(0, cur.len() as int) =~= cur);
                assert(lines_view(result@) =~= before.push(cur));
                assert(before + seq![cur] =~= before.push(cur));
            }
            break ;
        }
    }
    result
}

/// Sets the sizes of the objects from `node` on; see [`sized`]. Says
/// whether every number fitted.
pub fn calculate_node_size(node: &mut Option<Box<LayoutObject>>, parent_size: LayoutSize) -> (ok:
    bool)
    ensures
        ok == sized(link_view(*old(node)), parent_size).ok,
        ok ==> link_view(*final(node)) == sized(link_view(*old(node)), parent_size).tree,
    decreases *old(node),
{
    match node {
        None => true,
        Some(n) => {
            let ghost before = n@;
            if n.kind == LayoutObjectKind::Block {
                n.size.set_width(parent_size.width());
            }
            let own_size = n.size;
            assert(own_size == size_for_children(before, parent_size));
            if !calculate_node_size(&mut n.first_child, own_size) {
                return false;
            }
            if !calculate_node_size(&mut n.next_sibling, parent_size) {
                return false;
            }
            n.try_compute_size(parent_size)
        },
    }
}

/// Sets the positions of the objects from `node` on; see [`positioned`].
/// Says whether every number fitted.
pub fn calculate_node_position(
    node: &mut Option<Box<LayoutObject>>,
    parent_point: LayoutPoint,
    previous_sibling_kind: LayoutObjectKind,
    previous_sibling_point: Option<LayoutPoint>,
    previous_sibling_size: Option<LayoutSize>,
) -> (ok: bool)
    ensures
        ok == positioned(
            link_view(*old(node)),
            parent_point,
            previous_sibling_kind,
            previous_sibling_point,
            previous_sibling_size,
        ).ok,
        ok ==> link_view(*final(node)) == positioned(
            link_view(*old(node)),
            parent_point,
            previous_sibling_kind,
            previous_sibling_point,
            previous_sibling_size,
        ).tree,
    decreases *old(node),
{
    match node {
        None => true,
        Some(n) => {
            let point = match position_of(
                n.kind,
                parent_point,
                previous_sibling_kind,
                previous_sibling_point,
                previous_sibling_size,
            ) {
                Some(point) => point,
                None => {
                    return false;
                },
            };
            n.point = point;
            let kind = n.kind;
            let size = n.size;
            if !calculate_node_position(
                &mut n.first_child,
                point,
                LayoutObjectKind::Block,
                None,
                None,
            ) {
                return false;
            }
            calculate_node_position(
                &mut n.next_sibling,
                parent_point,
                kind,
                Some(point),
                Some(size),
            )
        },
    }
}

/// Adds what the objects from `node` on paint to `display_items`; see
/// [`painted_tree`]. Says whether the place of every line fitted.
pub fn paint_node(node: &Option<Box<LayoutObject>>, display_items: &mut Vec<DisplayItem>) -> (ok:
    bool)
    ensures
        ok == painted_tree(link_view(*node)) is Some,
        ok ==> items_view(final(display_items)@) == items_view(old(display_items)@) + painted_tree(
            link_view(*node),
        )->0,
    decreases *node,
{
    match node {
        Some(n) => {
            let ghost before = items_view(display_items@);
            let mut own = match n.try_paint() {
                Some(items) => items,
                None => {
                    return false;
                },
            };
            let ghost own_view = items_view(own@);
            display_items.append(&mut own);
            assert(items_view(display_items@) =~= before + own_view);
            if !paint_node(&n.first_child, display_items) {
                return false;
            }
            let ghost middle = items_view(display_items@);
            if !paint_node(&n.next_sibling, display_items) {
                return false;
            }
            assert(items_view(display_items@) =~= before + painted_tree(link_view(*node))->0);
            true
        },
        None => {
            assert(items_view(display_items@) =~= items_view(display_items@) + Seq::<
                DisplayItemView,
            >::empty());
            true
        },
    }
}

/// Makes the layout object for node `node` of `window`: the rules of
/// `cssom` that select the node are applied in their order, then the
/// defaults. Gives `None` where there is no such node, or where its
/// display is `none`.
pub fn create_layout_object(
    window: &Window,
    node: Option<usize>,
    parent_obj: Option<&LayoutObject>,
    cssom: &StyleSheet,
) -> (o: Option<LayoutObject>)
    ensures
        match created_object(window@.nodes, node, as_parent(parent_obj), cssom@.rules) {
            Some(v) => o matches Some(x) && x@ == v,
            None => o is None,
        },
{
    let n = match node {
        Some(n) => n,
        None => {
            return None;
        },
    };
    if n >= window.len() {
        return None;
    }
    let mut layout_object = LayoutObject::new(window, n, parent_obj);
    let ghost kind = layout_object@.node_kind;
    let ghost fresh = layout_object@;
    let ghost rules = cssom@.rules;
    let mut i: usize = 0;
    assert(rules.take(0) =~= Seq::empty());
    while i < cssom.rules.len()
        invariant
            i <= cssom.rules.len(),
            rules == cssom@.rules,
            rules == rules_view(cssom.rules@),
            layout_object@ == (LayoutObjectView {
                style: cascade_rules(ComputedStyle::spec_new(), kind, rules.take(i as int)),
                ..fresh
            }),
            kind == fresh.node_kind,
        decreases cssom.rules.len() - i,
    {
        let rule = &cssom.rules[i];
        assert(rules.take(i + 1).drop_last() =~= rules.take(i as int));
        assert(rules.take(i + 1).last() == rule@);
        if layout_object.is_node_selected(&rule.selector) {
            layout_object.cascading_style(
                crate::renderer::css::cssom::clone_declarations(&rule.declarations),
            );
        }
        i += 1;
    }
    assert(rules.take(cssom.rules.len() as int) =~= rules);
    let parent_style = match parent_obj {
        Some(parent) => Some(parent.style()),
        None => None,
    };
    layout_object.defaulting_style(parent_style);
    proof {
        if kind is Document {
            lemma_rules_select_elements_only(ComputedStyle::spec_new(), kind, rules);
        }
    }
    if layout_object.style().display() == DisplayType::DisplayNone {
        return None;
    }
    layout_object.update_kind();
    Some(layout_object)
}

} // verus!
