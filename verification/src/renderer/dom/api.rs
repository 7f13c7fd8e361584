//! Searching the document tree.

use crate::renderer::dom::node::following;
use crate::renderer::dom::node::links_agree;
use crate::renderer::dom::node::place_of;
use crate::renderer::dom::node::tree_wf;
use crate::renderer::dom::node::ElementKind;
use crate::renderer::dom::node::NodeKind;
use crate::renderer::dom::node::NodeKindView;
use crate::renderer::dom::node::NodeView;
use crate::renderer::dom::node::Window;
use vstd::prelude::*;

verus! {

/// The first child of node `n`, where it was made after `n`.
pub open spec fn child_after(nodes: Seq<NodeView>, n: usize) -> Option<usize>
    recommends
        n < nodes.len(),
{
    match nodes[n as int].first_child {
        Some(c) => if n < c < nodes.len() {
            Some(c)
        } else {
            None
        },
        None => None,
    }
}

/// In a well-formed tree the first child and the next sibling of a node
/// were made after it.
pub proof fn lemma_links_go_forward(nodes: Seq<NodeView>, n: usize)
    requires
        tree_wf(nodes),
        n < nodes.len(),
    ensures
        child_after(nodes, n) == nodes[n as int].first_child,
        following(nodes, n) == nodes[n as int].next_sibling,
{
    assert(links_agree(nodes, n as int));
}

/// Whether node `n` is an element of kind `kind`.
pub open spec fn is_element_of_kind(nodes: Seq<NodeView>, n: usize, kind: ElementKind) -> bool
    recommends
        n < nodes.len(),
{
    match nodes[n as int].kind {
        NodeKindView::Element(e) => e.kind == kind,
        _ => false,
    }
}

/// The first element of kind `kind` among node `node`, the siblings after
/// it, and all that is below them, in document order: a node comes before
/// its children, and its children before its next sibling.
pub open spec fn target_element(
    nodes: Seq<NodeView>,
    node: Option<usize>,
    kind: ElementKind,
) -> Option<usize>
    decreases nodes.len() - place_of(nodes, node),
{
    match node {
        None => None,
        Some(n) => if n >= nodes.len() {
            None
        } else if is_element_of_kind(nodes, n, kind) {
            Some(n)
        } else {
            match target_element(nodes, child_after(nodes, n), kind) {
                Some(r) => Some(r),
                None => target_element(nodes, following(nodes, n), kind),
            }
        },
    }
}

/// What `target_element` finds is a node of the tree and an element of
/// the kind that was asked for.
pub proof fn lemma_target_element(nodes: Seq<NodeView>, node: Option<usize>, kind: ElementKind)
    ensures
        target_element(nodes, node, kind) matches Some(r) ==> r < nodes.len()
            && is_element_of_kind(nodes, r, kind),
    decreases nodes.len() - place_of(nodes, node),
{
    match node {
        None => {},
        Some(n) => {
            if n < nodes.len() && !is_element_of_kind(nodes, n, kind) {
                lemma_target_element(nodes, child_after(nodes, n), kind);
                lemma_target_element(nodes, following(nodes, n), kind);
            }
        },
    }
}

/// Finds the first element of kind `element_kind` at or after `node`, in
/// document order.
pub fn get_target_element_node(
    window: &Window,
    node: Option<usize>,
    element_kind: ElementKind,
) -> (r: Option<usize>)
    requires
        window.wf(),
    ensures
        r == target_element(window@.nodes, node, element_kind),
    decreases window@.nodes.len() - place_of(window@.nodes, node),
{
    match node {
        Some(n) => {
            if n >= window.len() {
                return None;
            }
            proof {
                lemma_links_go_forward(window@.nodes, n);
                assert(links_agree(window@.nodes, n as int));
            }
            let current = window.node(n);
            if current.element_kind() == Some(element_kind) {
                return Some(n);
            }
            let result1 = get_target_element_node(window, current.first_child(), element_kind);
            if result1.is_some() {
                return result1;
            }
            get_target_element_node(window, current.next_sibling(), element_kind)
        },
        None => None,
    }
}

/// The text of the first element of kind `kind` of the document: that of
/// its first child, where that is a text; empty where there is no such
/// element or its first child is no text.
pub open spec fn element_content(nodes: Seq<NodeView>, kind: ElementKind) -> Seq<char> {
    match target_element(nodes, Some(0usize), kind) {
        Some(s) => match nodes[s as int].first_child {
            Some(t) => if t < nodes.len() {
                match nodes[t as int].kind {
                    NodeKindView::Text(text) => text,
                    _ => Seq::empty(),
                }
            } else {
                Seq::empty()
            },
            None => Seq::empty(),
        },
        None => Seq::empty(),
    }
}

/// The text of the first element of kind `kind` of the document.
fn get_element_content(window: &Window, kind: ElementKind) -> (content: String)
    requires
        window.wf(),
    ensures
        content@ == element_content(window@.nodes, kind),
{
    proof {
        lemma_target_element(window@.nodes, Some(0usize), kind);
    }
    let element = match get_target_element_node(window, Some(window.document()), kind) {
        Some(node) => node,
        None => {
            return String::new();
        },
    };
    let text_node = match window.node(element).first_child() {
        Some(node) => node,
        None => {
            return String::new();
        },
    };
    match window.get(text_node) {
        Some(node) => match node.kind_ref() {
            NodeKind::Text(s) => s.clone(),
            _ => String::new(),
        },
        None => String::new(),
    }
}

/// The text of the first `style` element of the document.
pub fn get_style_content(window: &Window) -> (content: String)
    requires
        window.wf(),
    ensures
        content@ == element_content(window@.nodes, ElementKind::Style),
{
    get_element_content(window, ElementKind::Style)
}

/// The text of the first `script` element of the document. It is handed
/// out as it stands: nothing in this library runs it.
pub fn get_js_content(window: &Window) -> (content: String)
    requires
        window.wf(),
    ensures
        content@ == element_content(window@.nodes, ElementKind::Script),
{
    get_element_content(window, ElementKind::Script)
}

} // verus!
