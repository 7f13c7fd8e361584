//! What the painter hands to the window: rectangles and lines of text.

use crate::renderer::layout::computed_style::ComputedStyle;
use crate::renderer::layout::layout_object::LayoutPoint;
use crate::renderer::layout::layout_object::LayoutSize;
use vstd::prelude::*;

verus! {

/// What a [`DisplayItem`] holds.
pub enum DisplayItemView {
    Rect { style: ComputedStyle, layout_point: LayoutPoint, layout_size: LayoutSize },
    Text { text: Seq<char>, style: ComputedStyle, layout_point: LayoutPoint },
}

#[derive(Debug, PartialEq, Eq)]
pub enum DisplayItem {
    Rect { style: ComputedStyle, layout_point: LayoutPoint, layout_size: LayoutSize },
    Text { text: String, style: ComputedStyle, layout_point: LayoutPoint },
}

impl View for DisplayItem {
    type V = DisplayItemView;

    open spec fn view(&self) -> DisplayItemView {
        match self {
            DisplayItem::Rect { style, layout_point, layout_size } => DisplayItemView::Rect {
                style: *style,
                layout_point: *layout_point,
                layout_size: *layout_size,
            },
            DisplayItem::Text { text, style, layout_point } => DisplayItemView::Text {
                text: text@,
                style: *style,
                layout_point: *layout_point,
            },
        }
    }
}

impl Clone for DisplayItem {
    fn clone(&self) -> (r: Self)
        ensures
            r@ == self@,
    {
        match self {
            DisplayItem::Rect { style, layout_point, layout_size } => DisplayItem::Rect {
                style: *style,
                layout_point: *layout_point,
                layout_size: *layout_size,
            },
            DisplayItem::Text { text, style, layout_point } => DisplayItem::Text {
                text: text.clone(),
                style: *style,
                layout_point: *layout_point,
            },
        }
    }
}

/// The views of a sequence of display items, in the same order.
pub open spec fn items_view(items: Seq<DisplayItem>) -> Seq<DisplayItemView> {
    items.map_values(|i: DisplayItem| i@)
}

} // verus!
