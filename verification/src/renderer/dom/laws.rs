//! What holds of every document tree that the window and the tree builder
//! make.

use crate::renderer::dom::node::children_of;
use crate::renderer::dom::node::following;
use crate::renderer::dom::node::lemma_with_child_shape;
use crate::renderer::dom::node::lemma_with_child_wf;
use crate::renderer::dom::node::lemma_with_text_char_wf;
use crate::renderer::dom::node::links_agree;
use crate::renderer::dom::node::place_of;
use crate::renderer::dom::node::siblings_from;
use crate::renderer::dom::node::tree_wf;
use crate::renderer::dom::node::with_child;
use crate::renderer::dom::node::with_text_char;
use crate::renderer::dom::node::NodeKindView;
use crate::renderer::dom::node::NodeView;
use vstd::prelude::*;

verus! {

/// A node and the siblings after it stand in the order in which they
/// were made: each was made after the one before it, and none before
/// `start`.
pub proof fn lemma_siblings_in_order(nodes: Seq<NodeView>, start: Option<usize>)
    ensures
        forall|a: int|
            0 <= a < siblings_from(nodes, start).len() ==> place_of(nodes, start) <= (
            #[trigger] siblings_from(nodes, start)[a]) < nodes.len(),
        forall|a: int, b: int|
            0 <= a < b < siblings_from(nodes, start).len() ==> siblings_from(nodes, start)[a]
                < siblings_from(nodes, start)[b],
    decreases nodes.len() - place_of(nodes, start),
{
    match start {
        Some(c) => {
            if c < nodes.len() {
                let rest = siblings_from(nodes, following(nodes, c));
                lemma_siblings_in_order(nodes, following(nodes, c));
                let all = siblings_from(nodes, start);
                assert(all == seq![c] + rest);
                assert forall|a: int| 0 <= a < all.len() implies place_of(nodes, start) <= (
                #[trigger] all[a]) < nodes.len() by {
                    if a > 0 {
                        assert(all[a] == rest[a - 1]);
                    }
                }
                assert forall|a: int, b: int| 0 <= a < b < all.len() implies all[a] < all[b] by {
                    assert(all[b] == rest[b - 1]);
                    if a > 0 {
                        assert(all[a] == rest[a - 1]);
                    }
                }
            }
        },
        None => {},
    }
}

/// The children of a node stand in document order: of two children, the
/// one that was made first comes first.
pub proof fn lemma_children_in_document_order(nodes: Seq<NodeView>, i: int, a: int, b: int)
    requires
        0 <= i < nodes.len(),
        0 <= a < b < children_of(nodes, i).len(),
    ensures
        children_of(nodes, i)[a] < children_of(nodes, i)[b],
{
    lemma_siblings_in_order(nodes, nodes[i].first_child);
}

/// What a new last child of `parent` does to the chain from `c` on: where
/// `c` is a child of `parent`, the new node joins the chain at its end;
/// any other chain stays as it is.
proof fn lemma_chain_after_append(
    nodes: Seq<NodeView>,
    parent: usize,
    kind: NodeKindView,
    c: usize,
)
    requires
        tree_wf(nodes),
        parent < nodes.len(),
        nodes.len() < usize::MAX,
        0 < c < nodes.len(),
    ensures
        nodes[c as int].parent == Some(parent) ==> siblings_from(
            with_child(nodes, parent, kind),
            Some(c),
        ) == siblings_from(nodes, Some(c)).push(nodes.len() as usize),
        nodes[c as int].parent != Some(parent) ==> siblings_from(
            with_child(nodes, parent, kind),
            Some(c),
        ) == siblings_from(nodes, Some(c)),
    decreases nodes.len() - c,
{
    let after = with_child(nodes, parent, kind);
    let id = nodes.len() as usize;
    lemma_with_child_shape(nodes, parent, kind);
    assert(links_agree(nodes, c as int));
    assert(links_agree(nodes, parent as int));
    let last = nodes[parent as int].last_child;
    if last == Some(c) {
        assert(nodes[c as int].parent == Some(parent));
        assert(after[c as int].next_sibling == Some(id));
        assert(following(after, c) == Some(id));
        assert(following(after, id) is None);
        assert(siblings_from(after, following(after, id)) =~= Seq::<usize>::empty());
        assert(siblings_from(after, Some(id)) =~= seq![id]);
        assert(siblings_from(nodes, following(nodes, c)) =~= Seq::<usize>::empty());
        assert(siblings_from(after, Some(c)) =~= siblings_from(nodes, Some(c)).push(id));
    } else {
        assert(after[c as int].next_sibling == nodes[c as int].next_sibling);
        match nodes[c as int].next_sibling {
            Some(n) => {
                assert(links_agree(nodes, n as int));
                assert(following(after, c) == Some(n));
                assert(following(nodes, c) == Some(n));
                lemma_chain_after_append(nodes, parent, kind, n);
                assert(nodes[n as int].parent == nodes[c as int].parent);
                assert(siblings_from(after, Some(c)) == seq![c] + siblings_from(after, Some(n)));
                assert(siblings_from(nodes, Some(c)) == seq![c] + siblings_from(nodes, Some(n)));
                if nodes[c as int].parent == Some(parent) {
                    assert(siblings_from(after, Some(c)) =~= siblings_from(nodes, Some(c)).push(
                        id,
                    ));
                }
            },
            None => {
                assert(following(after, c) is None);
                assert(following(nodes, c) is None);
                let p = nodes[c as int].parent->0;
                assert(nodes[p as int].last_child == Some(c));
                assert(siblings_from(after, Some(c)) == seq![c] + siblings_from(after, None));
                assert(siblings_from(nodes, Some(c)) == seq![c] + siblings_from(nodes, None));
            },
        }
    }
}

/// A new child goes to the end of the children of its parent, and the
/// children of every other node stay as they are.
pub proof fn lemma_with_child_children(nodes: Seq<NodeView>, parent: usize, kind: NodeKindView)
    requires
        tree_wf(nodes),
        parent < nodes.len(),
        nodes.len() < usize::MAX,
    ensures
        children_of(with_child(nodes, parent, kind), parent as int) == children_of(
            nodes,
            parent as int,
        ).push(nodes.len() as usize),
        children_of(with_child(nodes, parent, kind), nodes.len() as int) == Seq::<usize>::empty(),
        forall|q: int|
            0 <= q < nodes.len() && q != parent ==> #[trigger] children_of(
                with_child(nodes, parent, kind),
                q,
            ) == children_of(nodes, q),
{
    let after = with_child(nodes, parent, kind);
    let id = nodes.len() as usize;
    lemma_with_child_shape(nodes, parent, kind);
    assert(links_agree(nodes, parent as int));
    match nodes[parent as int].first_child {
        Some(f) => {
            lemma_chain_after_append(nodes, parent, kind, f);
        },
        None => {
            assert(following(after, id) is None);
            assert(siblings_from(after, following(after, id)) =~= Seq::<usize>::empty());
            assert(siblings_from(after, Some(id)) =~= seq![id]);
            assert(children_of(nodes, parent as int) =~= Seq::<usize>::empty());
            assert(children_of(after, parent as int) =~= children_of(nodes, parent as int).push(
                id,
            ));
        },
    }
    assert(children_of(after, id as int) =~= Seq::<usize>::empty());
    assert forall|q: int| 0 <= q < nodes.len() && q != parent implies #[trigger] children_of(
        after,
        q,
    ) == children_of(nodes, q) by {
        assert(links_agree(nodes, q));
        assert(after[q].first_child == nodes[q].first_child);
        match nodes[q].first_child {
            Some(f) => {
                lemma_chain_after_append(nodes, parent, kind, f);
            },
            None => {},
        }
    }
}

/// Chains that agree on every next sibling are the same chain.
pub proof fn lemma_same_links_same_chain(
    nodes: Seq<NodeView>,
    other: Seq<NodeView>,
    start: Option<usize>,
)
    requires
        nodes.len() == other.len(),
        forall|i: int| 0 <= i < nodes.len() ==> (#[trigger] nodes[i]).next_sibling
            == other[i].next_sibling,
    ensures
        siblings_from(nodes, start) == siblings_from(other, start),
    decreases nodes.len() - place_of(nodes, start),
{
    match start {
        Some(c) => {
            if c < nodes.len() {
                assert(nodes[c as int].next_sibling == other[c as int].next_sibling);
                lemma_same_links_same_chain(nodes, other, following(nodes, c));
            }
        },
        None => {},
    }
}

/// A longer text changes the children of no node.
pub proof fn lemma_with_text_char_children(nodes: Seq<NodeView>, i: usize, c: char, q: int)
    requires
        i < nodes.len(),
        0 <= q < nodes.len(),
    ensures
        children_of(with_text_char(nodes, i, c), q) == children_of(nodes, q),
{
    lemma_same_links_same_chain(nodes, with_text_char(nodes, i, c), nodes[q].first_child);
}

/// Whether `a` is the start of `b`.
pub open spec fn is_prefix_of(a: Seq<usize>, b: Seq<usize>) -> bool {
    a.len() <= b.len() && a == b.take(a.len() as int)
}

/// Whether the tree `after` is the tree `before` with more in it: it is
/// well formed, it holds the nodes of `before` at their places, and the
/// children of every node of `before` are still its first children, in
/// the same order.
pub open spec fn grown_from(before: Seq<NodeView>, after: Seq<NodeView>) -> bool {
    &&& tree_wf(after)
    &&& before.len() <= after.len()
    &&& forall|q: int|
        0 <= q < before.len() ==> is_prefix_of(
            #[trigger] children_of(before, q),
            children_of(after, q),
        )
}

/// A tree is grown from itself.
pub proof fn lemma_grown_refl(nodes: Seq<NodeView>)
    requires
        tree_wf(nodes),
    ensures
        grown_from(nodes, nodes),
{
    assert forall|q: int| 0 <= q < nodes.len() implies is_prefix_of(
        #[trigger] children_of(nodes, q),
        children_of(nodes, q),
    ) by {
        assert(children_of(nodes, q).take(children_of(nodes, q).len() as int) =~= children_of(
            nodes,
            q,
        ));
    }
}

/// What is grown from a grown tree is grown from the first tree.
pub proof fn lemma_grown_trans(a: Seq<NodeView>, b: Seq<NodeView>, c: Seq<NodeView>)
    requires
        grown_from(a, b),
        grown_from(b, c),
    ensures
        grown_from(a, c),
{
    assert forall|q: int| 0 <= q < a.len() implies is_prefix_of(
        #[trigger] children_of(a, q),
        children_of(c, q),
    ) by {
        let x = children_of(a, q);
        let y = children_of(b, q);
        let z = children_of(c, q);
        assert(is_prefix_of(x, y));
        assert(is_prefix_of(y, z));
        assert(x =~= z.take(x.len() as int));
    }
}

/// A tree with a new last child is grown from the tree without it.
pub proof fn lemma_with_child_grows(nodes: Seq<NodeView>, parent: usize, kind: NodeKindView)
    requires
        tree_wf(nodes),
        parent < nodes.len(),
        nodes.len() < usize::MAX,
        !(kind is Document),
    ensures
        grown_from(nodes, with_child(nodes, parent, kind)),
{
    let after = with_child(nodes, parent, kind);
    lemma_with_child_wf(nodes, parent, kind);
    lemma_with_child_shape(nodes, parent, kind);
    lemma_with_child_children(nodes, parent, kind);
    assert forall|q: int| 0 <= q < nodes.len() implies is_prefix_of(
        #[trigger] children_of(nodes, q),
        children_of(after, q),
    ) by {
        let x = children_of(nodes, q);
        if q == parent {
            assert(x.push(nodes.len() as usize).take(x.len() as int) =~= x);
        } else {
            assert(x.take(x.len() as int) =~= x);
        }
    }
}

/// A tree with a longer text is grown from the tree before.
pub proof fn lemma_with_text_char_grows(nodes: Seq<NodeView>, i: usize, c: char)
    requires
        tree_wf(nodes),
        i < nodes.len(),
    ensures
        grown_from(nodes, with_text_char(nodes, i, c)),
{
    let after = with_text_char(nodes, i, c);
    lemma_with_text_char_wf(nodes, i, c);
    assert forall|q: int| 0 <= q < nodes.len() implies is_prefix_of(
        #[trigger] children_of(nodes, q),
        children_of(after, q),
    ) by {
        lemma_with_text_char_children(nodes, i, c, q);
        let x = children_of(nodes, q);
        assert(x.take(x.len() as int) =~= x);
    }
}

/// In a chain, the node that follows a node of the chain stands right
/// behind it.
pub proof fn lemma_chain_holds_the_following(
    nodes: Seq<NodeView>,
    start: Option<usize>,
    k: int,
)
    requires
        0 <= k < siblings_from(nodes, start).len(),
        following(nodes, siblings_from(nodes, start)[k]) is Some,
    ensures
        k + 1 < siblings_from(nodes, start).len(),
        siblings_from(nodes, start)[k + 1] == following(nodes, siblings_from(nodes, start)[k])->0,
    decreases k,
{
    let c = start->0;
    let rest = siblings_from(nodes, following(nodes, c));
    assert(siblings_from(nodes, start) == seq![c] + rest);
    if k == 0 {
        let n = following(nodes, c)->0;
        assert(rest == seq![n] + siblings_from(nodes, following(nodes, n)));
        assert(rest[0] == n);
    } else {
        assert(siblings_from(nodes, start)[k] == rest[k - 1]);
        lemma_chain_holds_the_following(nodes, following(nodes, c), k - 1);
        assert(siblings_from(nodes, start)[k + 1] == rest[k]);
    }
}

/// Every node but the document is among the children of its parent: the
/// chain that starts at the parent's first child reaches it.
pub proof fn lemma_parent_reaches_child(nodes: Seq<NodeView>, i: int)
    requires
        tree_wf(nodes),
        0 < i < nodes.len(),
    ensures
        nodes[i].parent is Some,
        children_of(nodes, nodes[i].parent->0 as int).contains(i as usize),
    decreases i,
{
    assert(links_agree(nodes, i));
    let p = nodes[i].parent->0;
    let chain = children_of(nodes, p as int);
    match nodes[i].previous_sibling {
        None => {
            assert(nodes[p as int].first_child == Some(i as usize));
            assert(chain == seq![i as usize] + siblings_from(
                nodes,
                following(nodes, i as usize),
            ));
            assert(chain[0] == i as usize);
        },
        Some(s) => {
            assert(links_agree(nodes, s as int));
            lemma_parent_reaches_child(nodes, s as int);
            let k = choose|k: int| 0 <= k < chain.len() && chain[k] == s;
            assert(following(nodes, s) == Some(i as usize));
            lemma_chain_holds_the_following(nodes, nodes[p as int].first_child, k);
            assert(chain[k + 1] == i as usize);
        },
    }
}

} // verus!
