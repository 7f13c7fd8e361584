//! The layout tree of a document: built below `body`, sized, positioned,
//! and painted into a display list.

use crate::constants::CONTENT_AREA_WIDTH;
use crate::display_item::items_view;
use crate::display_item::DisplayItem;
use crate::display_item::DisplayItemView;
use crate::renderer::css::cssom::RuleView;
use crate::renderer::css::cssom::StyleSheet;
use crate::renderer::dom::api::child_after;
use crate::renderer::dom::api::get_target_element_node;
use crate::renderer::dom::api::lemma_links_go_forward;
use crate::renderer::dom::api::target_element;
use crate::renderer::dom::node::following;
use crate::renderer::dom::node::links_agree;
use crate::renderer::dom::node::place_of;
use crate::renderer::dom::node::ElementKind;
use crate::renderer::dom::node::NodeView;
use crate::renderer::dom::node::Window;
use crate::renderer::layout::computed_style::ComputedStyle;
use crate::renderer::layout::layout_object::as_parent;
use crate::renderer::layout::layout_object::calculate_node_position;
use crate::renderer::layout::layout_object::calculate_node_size;
use crate::renderer::layout::layout_object::clone_link;
use crate::renderer::layout::layout_object::create_layout_object;
use crate::renderer::layout::layout_object::created_object;
use crate::renderer::layout::layout_object::link_view;
use crate::renderer::layout::layout_object::paint_node;
use crate::renderer::layout::layout_object::painted_tree;
use crate::renderer::layout::layout_object::positioned;
use crate::renderer::layout::layout_object::sized;
use crate::renderer::layout::layout_object::Laid;
use crate::renderer::layout::layout_object::LayoutObject;
use crate::renderer::layout::layout_object::LayoutObjectKind;
use crate::renderer::layout::layout_object::LayoutObjectView;
use crate::renderer::layout::layout_object::LayoutPoint;
use crate::renderer::layout::layout_object::LayoutSize;
use crate::renderer::layout::layout_object::Link;
use vstd::prelude::*;

verus! {

/// The layout objects for node `node` and the siblings after it, with all
/// that is below them, before any size or position is set.
///
/// A node whose display is `none` has no object, and neither has anything
/// below it: the sibling after it takes its place. The children of an
/// object are made with the object as their parent; its siblings with
/// the parent that it has itself.
pub open spec fn built(
    nodes: Seq<NodeView>,
    node: Option<usize>,
    parent: Option<(usize, ComputedStyle)>,
    rules: Seq<RuleView>,
) -> Link
    decreases nodes.len() - place_of(nodes, node),
{
    match node {
        None => None,
        Some(n) => if n >= nodes.len() {
            None
        } else {
            match created_object(nodes, node, parent, rules) {
                None => built(nodes, following(nodes, n), parent, rules),
                Some(o) => Some(
                    Box::new(
                        LayoutObjectView {
                            first_child: built(
                                nodes,
                                child_after(nodes, n),
                                Some((n, o.style)),
                                rules,
                            ),
                            next_sibling: built(nodes, following(nodes, n), parent, rules),
                            ..o
                        },
                    ),
                ),
            }
        },
    }
}

/// The view of an object that may be absent.
pub open spec fn object_link(o: Option<LayoutObject>) -> Link {
    match o {
        Some(x) => Some(Box::new(x@)),
        None => None,
    }
}

/// The size of the parent of the root: as wide as the content area.
pub open spec fn root_parent_size() -> LayoutSize {
    LayoutSize { width: CONTENT_AREA_WIDTH, height: 0 }
}

/// The layout tree of a document with the style rules `rules`: built from
/// the first `body` element on, then sized inside the content area, then
/// positioned from the origin.
pub open spec fn laid_out(nodes: Seq<NodeView>, rules: Seq<RuleView>) -> Laid {
    let tree = built(nodes, target_element(nodes, Some(0usize), ElementKind::Body), None, rules);
    let with_sizes = sized(tree, root_parent_size());
    let with_positions = positioned(
        with_sizes.tree,
        LayoutPoint { x: 0, y: 0 },
        LayoutObjectKind::Block,
        None,
        None,
    );
    Laid { ok: with_sizes.ok && with_positions.ok, tree: with_positions.tree }
}

/// Builds the layout objects for node `node` and the siblings after it,
/// with all that is below them; see [`built`].
pub fn build_layout_tree(
    window: &Window,
    node: Option<usize>,
    parent_obj: Option<&LayoutObject>,
    cssom: &StyleSheet,
) -> (r: Option<LayoutObject>)
    requires
        window.wf(),
    ensures
        object_link(r) == built(window@.nodes, node, as_parent(parent_obj), cssom@.rules),
    decreases window@.nodes.len() - place_of(window@.nodes, node),
{
    let ghost nodes = window@.nodes;
    let ghost rules = cssom@.rules;
    let ghost parent = as_parent(parent_obj);
    let mut target_node = node;
    let mut layout_object = create_layout_object(window, node, parent_obj, cssom);
    while layout_object.is_none()
        invariant
            window.wf(),
            nodes == window@.nodes,
            rules == cssom@.rules,
            parent == as_parent(parent_obj),
            built(nodes, target_node, parent, rules) == built(nodes, node, parent, rules),
            place_of(nodes, node) <= place_of(nodes, target_node),
            match created_object(nodes, target_node, parent, rules) {
                Some(v) => layout_object matches Some(x) && x@ == v,
                None => layout_object is None,
            },
        decreases nodes.len() - place_of(nodes, target_node),
    {
        match target_node {
            Some(n) => {
                if n >= window.len() {
                    return None;
                }
                proof {
                    lemma_links_go_forward(nodes, n);
                    assert(links_agree(nodes, n as int));
                }
                target_node = window.node(n).next_sibling();
                layout_object = create_layout_object(window, target_node, parent_obj, cssom);
            },
            None => {
                return None;
            },
        }
    }
    let mut obj = match layout_object {
        Some(obj) => obj,
        None => {
            return None;
        },
    };
    match target_node {
        Some(n) => {
            if n < window.len() {
                proof {
                    lemma_links_go_forward(nodes, n);
                    assert(links_agree(nodes, n as int));
                }
                let original_first_child = window.node(n).first_child();
                let original_next_sibling = window.node(n).next_sibling();
                let first_child = build_layout_tree(
                    window,
                    original_first_child,
                    Some(&obj),
                    cssom,
                );
                let next_sibling = build_layout_tree(
                    window,
                    original_next_sibling,
                    parent_obj,
                    cssom,
                );
                obj.set_first_child(first_child);
                obj.set_next_sibling(next_sibling);
            }
        },
        None => {},
    }
    Some(obj)
}

#[derive(Debug)]
pub struct LayoutView {
    root: Option<Box<LayoutObject>>,
}

impl Clone for LayoutView {
    fn clone(&self) -> (r: Self)
        ensures
            r.tree() == self.tree(),
    {
        Self { root: clone_link(&self.root) }
    }
}

impl LayoutView {
    /// The tree of the view.
    pub closed spec fn tree(&self) -> Link {
        link_view(self.root)
    }

    /// Builds the tree below the first `body` of the document, without
    /// sizes and positions.
    fn build(window: &Window, cssom: &StyleSheet) -> (root: Option<Box<LayoutObject>>)
        requires
            window.wf(),
        ensures
            link_view(root) == built(
                window@.nodes,
                target_element(window@.nodes, Some(0usize), ElementKind::Body),
                None,
                cssom@.rules,
            ),
    {
        let body_root = get_target_element_node(
            window,
            Some(window.document()),
            ElementKind::Body,
        );
        match build_layout_tree(window, body_root, None, cssom) {
            Some(o) => Some(Box::new(o)),
            None => None,
        }
    }

    /// Sets the sizes and then the positions of the tree; says whether
    /// every number fitted.
    fn update_layout(root: &mut Option<Box<LayoutObject>>) -> (ok: bool)
        ensures
            ({
                let with_sizes = sized(link_view(*old(root)), root_parent_size());
                let with_positions = positioned(
                    with_sizes.tree,
                    LayoutPoint { x: 0, y: 0 },
                    LayoutObjectKind::Block,
                    None,
                    None,
                );
                &&& ok == (with_sizes.ok && with_positions.ok)
                &&& ok ==> link_view(*final(root)) == with_positions.tree
            }),
    {
        if !calculate_node_size(root, LayoutSize::new(CONTENT_AREA_WIDTH, 0)) {
            return false;
        }
        calculate_node_position(
            root,
            LayoutPoint::new(0, 0),
            LayoutObjectKind::Block,
            None,
            None,
        )
    }

    /// The layout of the document in `window` under the rules of `cssom`,
    /// or `None` where a size or a position is no value of `i64`.
    pub fn try_new(window: &Window, cssom: &StyleSheet) -> (view: Option<Self>)
        requires
            window.wf(),
        ensures
            view is Some == laid_out(window@.nodes, cssom@.rules).ok,
            view matches Some(v) ==> v.tree() == laid_out(window@.nodes, cssom@.rules).tree,
    {
        let mut root = Self::build(window, cssom);
        if Self::update_layout(&mut root) {
            Some(Self { root })
        } else {
            None
        }
    }

    /// The layout of the document in `window` under the rules of `cssom`.
    /// Every size and position is a value of `i64`.
    pub fn new(window: &Window, cssom: &StyleSheet) -> (view: Self)
        requires
            window.wf(),
            laid_out(window@.nodes, cssom@.rules).ok,
        ensures
            view.tree() == laid_out(window@.nodes, cssom@.rules).tree,
    {
        let mut root = Self::build(window, cssom);
        Self::update_layout(&mut root);
        Self { root }
    }

    /// The object of `body`, if the document has one that is displayed.
    pub fn root(&self) -> (r: Option<&LayoutObject>)
        ensures
            match r {
                Some(x) => self.tree() == Some(Box::new(x@)),
                None => self.tree() is None,
            },
    {
        match &self.root {
            Some(r) => Some(&**r),
            None => None,
        }
    }

    /// The display list of the view: what every object paints, each
    /// object before those below it and those before the ones beside
    /// it. `None` where the place of a line of text is no value of `i64`.
    pub fn try_paint(&self) -> (items: Option<Vec<DisplayItem>>)
        ensures
            match painted_tree(self.tree()) {
                Some(v) => items matches Some(x) && items_view(x@) == v,
                None => items is None,
            },
    {
        let mut display_items: Vec<DisplayItem> = Vec::new();
        assert(items_view(display_items@) =~= Seq::empty());
        if paint_node(&self.root, &mut display_items) {
            assert(Seq::<DisplayItemView>::empty() + painted_tree(self.tree())->0
                =~= painted_tree(self.tree())->0);
            Some(display_items)
        } else {
            None
        }
    }

    /// The display list of the view. The place of every line of text is a
    /// value of `i64`.
    pub fn paint(&self) -> (items: Vec<DisplayItem>)
        requires
            painted_tree(self.tree()) is Some,
        ensures
            items_view(items@) == painted_tree(self.tree())->0,
    {
        match self.try_paint() {
            Some(items) => items,
            None => Vec::new(),
        }
    }
}

} // verus!
