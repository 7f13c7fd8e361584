//! The whole pipeline: from the text of a document to its display list.

use crate::display_item::items_view;
use crate::display_item::DisplayItem;
use crate::display_item::DisplayItemView;
use crate::renderer::html::parser::constructed;
use crate::renderer::html::parser::initial_parser;
use crate::renderer::html::parser::HtmlParser;
use crate::renderer::html::parser::ParserView;
use crate::renderer::html::token::initial;
use crate::renderer::html::token::spec_next;
use crate::renderer::html::token::HtmlTokenizer;
use crate::renderer::layout::layout_object::painted_tree;
use crate::renderer::layout::layout_view::laid_out;
use crate::renderer::layout::layout_view::LayoutView;
use vstd::prelude::*;

verus! {

/// The builder when it has read the whole of `html`.
pub open spec fn parsed(html: Seq<char>) -> ParserView {
    constructed(
        ParserView { tokenizer: spec_next(initial(html)).next, ..initial_parser(initial(html)) },
        spec_next(initial(html)).token,
    )
}

/// The display list of the document `html`: the document is built, then
/// laid out under the rules of its own `style` elements, then painted.
/// Where a size or a position is no value of `i64`, the list is empty.
pub open spec fn rendered(html: Seq<char>) -> Seq<DisplayItemView> {
    let layout = laid_out(parsed(html).nodes, parsed(html).rules);
    if layout.ok {
        match painted_tree(layout.tree) {
            Some(items) => items,
            None => Seq::empty(),
        }
    } else {
        Seq::empty()
    }
}

/// Renders the document `html` into its display list. It never fails:
/// whatever the text, a list comes back, which may be empty.
pub fn render(html: String) -> (items: Vec<DisplayItem>)
    ensures
        items_view(items@) == rendered(html@),
{
    let window = HtmlParser::new(HtmlTokenizer::new(html)).construct_tree();
    let mut none: Vec<DisplayItem> = Vec::new();
    assert(items_view(none@) =~= Seq::empty());
    match LayoutView::try_new(&window, window.style_sheet()) {
        Some(view) => match view.try_paint() {
            Some(items) => items,
            None => none,
        },
        None => none,
    }
}

/// Rendering is a function of the document alone: whenever two display
/// lists are both what `render` gives for one document, they are the same
/// list.
pub proof fn lemma_render_is_deterministic(
    html: Seq<char>,
    first: Seq<DisplayItemView>,
    second: Seq<DisplayItemView>,
)
    requires
        first == rendered(html),
        second == rendered(html),
    ensures
        first == second,
{
}

} // verus!
