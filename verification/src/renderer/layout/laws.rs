//! What holds of every layout tree that the layout passes make.

use crate::constants::CONTENT_AREA_WIDTH;
use crate::display_item::DisplayItemView;
use crate::renderer::css::cssom::RuleView;
use crate::renderer::dom::node::NodeView;
use crate::renderer::dom::api::child_after;
use crate::renderer::dom::api::target_element;
use crate::renderer::dom::node::following;
use crate::renderer::dom::node::place_of;
use crate::renderer::dom::node::ElementKind;
use crate::renderer::layout::computed_style::ComputedStyle;
use crate::renderer::layout::computed_style::DisplayType;
use crate::renderer::layout::layout_object::break_index;
use crate::renderer::layout::layout_object::computed_position;
use crate::renderer::layout::layout_object::is_text_whitespace;
use crate::renderer::layout::layout_object::lemma_break_index;
use crate::renderer::layout::layout_object::lemma_split_progress;
use crate::renderer::layout::layout_object::line_limit;
use crate::renderer::layout::layout_object::split_lines;
use crate::renderer::layout::layout_object::squeeze;
use crate::renderer::layout::layout_object::trim;
use crate::renderer::layout::layout_object::created_object;
use crate::renderer::layout::layout_object::kind_for;
use crate::renderer::layout::layout_object::lemma_rules_select_elements_only;
use crate::renderer::layout::layout_object::computed_size;
use crate::renderer::layout::layout_object::painted;
use crate::renderer::layout::layout_object::painted_tree;
use crate::renderer::layout::layout_object::positioned;
use crate::renderer::layout::layout_object::size_for_children;
use crate::renderer::layout::layout_object::sized;
use crate::renderer::layout::layout_object::LayoutObjectKind;
use crate::renderer::layout::layout_object::LayoutObjectView;
use crate::renderer::layout::layout_object::LayoutPoint;
use crate::renderer::layout::layout_object::LayoutSize;
use crate::renderer::layout::layout_object::Link;
use crate::renderer::layout::layout_view::built;
use crate::renderer::layout::layout_view::laid_out;
use crate::renderer::layout::layout_view::root_parent_size;
use vstd::prelude::*;

verus! {

/// Whether every block among the objects from `l` on, and below them,
/// that stands directly below a block is as wide as that block.
/// `parent_width` is the width of the parent of `l` where that parent is a
/// block, and `None` where it is not.
pub open spec fn blocks_fill_their_parent(l: Link, parent_width: Option<i64>) -> bool
    decreases l,
{
    match l {
        None => true,
        Some(n) => {
            &&& (n.kind == LayoutObjectKind::Block && parent_width is Some ==> n.size.width
                == parent_width->0)
            &&& blocks_fill_their_parent(
                n.first_child,
                if n.kind == LayoutObjectKind::Block {
                    Some(n.size.width)
                } else {
                    None
                },
            )
            &&& blocks_fill_their_parent(n.next_sibling, parent_width)
        },
    }
}

/// What holds below a block of some width holds below any parent of
/// which nothing is said.
pub proof fn lemma_fill_without_parent(l: Link, parent_width: Option<i64>)
    requires
        blocks_fill_their_parent(l, parent_width),
    ensures
        blocks_fill_their_parent(l, None),
    decreases l,
{
    match l {
        None => {},
        Some(n) => {
            lemma_fill_without_parent(n.next_sibling, parent_width);
        },
    }
}

/// After the sizes are set, every block that stands directly below a
/// block is as wide as that block, and every block at the top is as wide
/// as the size that was handed in.
pub proof fn lemma_sized_blocks_fill_their_parent(l: Link, parent_size: LayoutSize)
    requires
        sized(l, parent_size).ok,
    ensures
        blocks_fill_their_parent(sized(l, parent_size).tree, Some(parent_size.width)),
    decreases l,
{
    match l {
        None => {},
        Some(n) => {
            let for_children = size_for_children(*n, parent_size);
            let children = sized(n.first_child, for_children);
            let siblings = sized(n.next_sibling, parent_size);
            let o = LayoutObjectView {
                first_child: children.tree,
                next_sibling: siblings.tree,
                size: for_children,
                ..*n
            };
            assert(computed_size(o, parent_size) is Some);
            lemma_sized_blocks_fill_their_parent(n.first_child, for_children);
            lemma_sized_blocks_fill_their_parent(n.next_sibling, parent_size);
            if n.kind != LayoutObjectKind::Block {
                lemma_fill_without_parent(children.tree, Some(for_children.width));
            }
        },
    }
}

/// Setting the positions changes no size and no kind: blocks that fill
/// their parents before fill them after.
pub proof fn lemma_positioned_blocks_fill_their_parent(
    l: Link,
    parent_width: Option<i64>,
    parent_point: LayoutPoint,
    previous_sibling_kind: LayoutObjectKind,
    previous_sibling_point: Option<LayoutPoint>,
    previous_sibling_size: Option<LayoutSize>,
)
    requires
        blocks_fill_their_parent(l, parent_width),
        positioned(
            l,
            parent_point,
            previous_sibling_kind,
            previous_sibling_point,
            previous_sibling_size,
        ).ok,
    ensures
        blocks_fill_their_parent(
            positioned(
                l,
                parent_point,
                previous_sibling_kind,
                previous_sibling_point,
                previous_sibling_size,
            ).tree,
            parent_width,
        ),
    decreases l,
{
    match l {
        None => {},
        Some(n) => {
            let point = computed_position(
                n.kind,
                parent_point,
                previous_sibling_kind,
                previous_sibling_point,
                previous_sibling_size,
            )->0;
            lemma_positioned_blocks_fill_their_parent(
                n.first_child,
                if n.kind == LayoutObjectKind::Block {
                    Some(n.size.width)
                } else {
                    None
                },
                point,
                LayoutObjectKind::Block,
                None,
                None,
            );
            lemma_positioned_blocks_fill_their_parent(
                n.next_sibling,
                parent_width,
                parent_point,
                n.kind,
                Some(point),
                Some(n.size),
            );
        },
    }
}

/// In the layout of a document, every block that stands directly below a
/// block is as wide as that block, and the block at the root is as wide
/// as the content area.
pub proof fn lemma_layout_blocks_fill_their_parent(nodes: Seq<NodeView>, rules: Seq<RuleView>)
    requires
        laid_out(nodes, rules).ok,
    ensures
        blocks_fill_their_parent(laid_out(nodes, rules).tree, Some(CONTENT_AREA_WIDTH)),
{
    let tree = built(nodes, target_element(nodes, Some(0usize), ElementKind::Body), None, rules);
    lemma_sized_blocks_fill_their_parent(tree, root_parent_size());
    lemma_positioned_blocks_fill_their_parent(
        sized(tree, root_parent_size()).tree,
        Some(CONTENT_AREA_WIDTH),
        LayoutPoint { x: 0, y: 0 },
        LayoutObjectKind::Block,
        None,
        None,
    );
}

/// Whether every block among the objects from `l` on, and below them,
/// that has a sibling before it starts where that sibling ends:
/// at its `y` plus its height. `previous` is the position and the size of
/// the sibling before `l`.
pub open spec fn blocks_follow_their_sibling(
    l: Link,
    previous: Option<(LayoutPoint, LayoutSize)>,
) -> bool
    decreases l,
{
    match l {
        None => true,
        Some(n) => {
            &&& match previous {
                Some((point, size)) => n.kind == LayoutObjectKind::Block ==> n.point.y == point.y
                    + size.height,
                None => true,
            }
            &&& blocks_follow_their_sibling(n.first_child, None)
            &&& blocks_follow_their_sibling(n.next_sibling, Some((n.point, n.size)))
        },
    }
}

/// The position and the size of a sibling, where both are given.
pub open spec fn sibling_box(point: Option<LayoutPoint>, size: Option<LayoutSize>) -> Option<
    (LayoutPoint, LayoutSize),
> {
    match (point, size) {
        (Some(p), Some(s)) => Some((p, s)),
        _ => None,
    }
}

/// After the positions are set, every block that has a sibling before it
/// starts where that sibling ends.
pub proof fn lemma_positioned_blocks_follow_their_sibling(
    l: Link,
    parent_point: LayoutPoint,
    previous_sibling_kind: LayoutObjectKind,
    previous_sibling_point: Option<LayoutPoint>,
    previous_sibling_size: Option<LayoutSize>,
)
    requires
        positioned(
            l,
            parent_point,
            previous_sibling_kind,
            previous_sibling_point,
            previous_sibling_size,
        ).ok,
    ensures
        blocks_follow_their_sibling(
            positioned(
                l,
                parent_point,
                previous_sibling_kind,
                previous_sibling_point,
                previous_sibling_size,
            ).tree,
            sibling_box(previous_sibling_point, previous_sibling_size),
        ),
    decreases l,
{
    match l {
        None => {},
        Some(n) => {
            let point = computed_position(
                n.kind,
                parent_point,
                previous_sibling_kind,
                previous_sibling_point,
                previous_sibling_size,
            )->0;
            lemma_positioned_blocks_follow_their_sibling(
                n.first_child,
                point,
                LayoutObjectKind::Block,
                None,
                None,
            );
            lemma_positioned_blocks_follow_their_sibling(
                n.next_sibling,
                parent_point,
                n.kind,
                Some(point),
                Some(n.size),
            );
        },
    }
}

/// In the layout of a document, every block that has a sibling before it
/// starts where that sibling ends.
pub proof fn lemma_layout_blocks_follow_their_sibling(nodes: Seq<NodeView>, rules: Seq<RuleView>)
    requires
        laid_out(nodes, rules).ok,
    ensures
        blocks_follow_their_sibling(laid_out(nodes, rules).tree, None),
{
    let tree = built(nodes, target_element(nodes, Some(0usize), ElementKind::Body), None, rules);
    lemma_positioned_blocks_follow_their_sibling(
        sized(tree, root_parent_size()).tree,
        LayoutPoint { x: 0, y: 0 },
        LayoutObjectKind::Block,
        None,
        None,
    );
}

/// The objects from `l` on and below them, in pre-order: an object, then
/// all that is below it, then the siblings after it.
pub open spec fn preorder(l: Link) -> Seq<LayoutObjectView>
    decreases l,
{
    match l {
        None => Seq::empty(),
        Some(n) => seq![*n] + preorder(n.first_child) + preorder(n.next_sibling),
    }
}

/// What one object paints for itself; nothing where the place of a line
/// is no value of `i64`.
pub open spec fn own_items(o: LayoutObjectView) -> Seq<DisplayItemView> {
    match painted(o) {
        Some(items) => items,
        None => Seq::empty(),
    }
}

/// What the objects paint, each for itself, one after the other.
pub open spec fn painted_in_order(objects: Seq<LayoutObjectView>) -> Seq<DisplayItemView>
    decreases objects.len(),
{
    if objects.len() == 0 {
        Seq::empty()
    } else {
        painted_in_order(objects.drop_last()) + own_items(objects.last())
    }
}

/// What two runs of objects paint is what the first paints, then what the
/// second paints.
pub proof fn lemma_painted_in_order_concat(a: Seq<LayoutObjectView>, b: Seq<LayoutObjectView>)
    ensures
        painted_in_order(a + b) == painted_in_order(a) + painted_in_order(b),
    decreases b.len(),
{
    if b.len() == 0 {
        assert(a + b =~= a);
        assert(painted_in_order(a) + painted_in_order(b) =~= painted_in_order(a));
    } else {
        lemma_painted_in_order_concat(a, b.drop_last());
        assert((a + b).drop_last() =~= a + b.drop_last());
        assert((a + b).last() == b.last());
        let own = own_items(b.last());
        assert(painted_in_order(a) + (painted_in_order(b.drop_last()) + own) =~= (painted_in_order(
            a,
        ) + painted_in_order(b.drop_last())) + own);
    }
}

/// Paint is pre-order: the display list of a tree is what its objects
/// paint, each for itself, in pre-order. So what an object paints stands
/// before what any object after it in pre-order paints.
pub proof fn lemma_paint_is_preorder(l: Link)
    requires
        painted_tree(l) is Some,
    ensures
        painted_tree(l)->0 == painted_in_order(preorder(l)),
    decreases l,
{
    match l {
        None => {},
        Some(n) => {
            lemma_paint_is_preorder(n.first_child);
            lemma_paint_is_preorder(n.next_sibling);
            let own = seq![*n];
            assert(own.drop_last() =~= Seq::<LayoutObjectView>::empty());
            assert(own.last() == *n);
            assert(painted_in_order(own.drop_last()) =~= Seq::<DisplayItemView>::empty());
            assert(painted_in_order(own) =~= painted(*n)->0);
            lemma_painted_in_order_concat(own, preorder(n.first_child));
            lemma_painted_in_order_concat(own + preorder(n.first_child), preorder(n.next_sibling));
        },
    }
}

/// Whether the objects from `l` on, and those below them, stand for
/// nodes of the document as a layout tree should.
///
/// Every object stands for a node of the document, holds the kind of that
/// node, and names `parent` as the node of its parent. No object stands
/// for the document or for a node whose display is `none`, and the kind
/// of the object is the one that its node and its display call for. The
/// object below an object and the one beside it stand for nodes that were
/// made later, so siblings stand in document order; `lower` is a bound
/// from below on the place of the node of `l`.
pub open spec fn stands_for_nodes(
    nodes: Seq<NodeView>,
    l: Link,
    parent: Option<usize>,
    lower: int,
) -> bool
    decreases l,
{
    match l {
        None => true,
        Some(n) => {
            &&& lower <= n.node < nodes.len()
            &&& n.node_kind == nodes[n.node as int].kind
            &&& n.parent == parent
            &&& !(n.node_kind is Document)
            &&& n.style.spec_display() != DisplayType::DisplayNone
            &&& n.kind == kind_for(n.node_kind, n.style.spec_display())
            &&& stands_for_nodes(nodes, n.first_child, Some(n.node), n.node + 1)
            &&& stands_for_nodes(nodes, n.next_sibling, parent, n.node + 1)
        },
    }
}

/// The place of the node of a parent, where there is a parent.
pub open spec fn parent_place(parent: Option<(usize, ComputedStyle)>) -> Option<usize> {
    match parent {
        Some(p) => Some(p.0),
        None => None,
    }
}

/// The tree that is built for a document stands for the nodes of that
/// document.
pub proof fn lemma_built_stands_for_nodes(
    nodes: Seq<NodeView>,
    node: Option<usize>,
    parent: Option<(usize, ComputedStyle)>,
    rules: Seq<RuleView>,
)
    ensures
        stands_for_nodes(
            nodes,
            built(nodes, node, parent, rules),
            parent_place(parent),
            place_of(nodes, node),
        ),
    decreases nodes.len() - place_of(nodes, node),
{
    match node {
        None => {},
        Some(n) => {
            if n < nodes.len() {
                lemma_built_stands_for_nodes(nodes, following(nodes, n), parent, rules);
                lemma_stands_for_nodes_from_lower(
                    nodes,
                    built(nodes, following(nodes, n), parent, rules),
                    parent_place(parent),
                    place_of(nodes, following(nodes, n)),
                    n as int + 1,
                );
                match created_object(nodes, node, parent, rules) {
                    None => {
                        lemma_stands_for_nodes_from_lower(
                            nodes,
                            built(nodes, following(nodes, n), parent, rules),
                            parent_place(parent),
                            n as int + 1,
                            n as int,
                        );
                    },
                    Some(o) => {
                        if nodes[n as int].kind is Document {
                            lemma_rules_select_elements_only(
                                ComputedStyle::spec_new(),
                                nodes[n as int].kind,
                                rules,
                            );
                        }
                        lemma_built_stands_for_nodes(
                            nodes,
                            child_after(nodes, n),
                            Some((n, o.style)),
                            rules,
                        );
                        lemma_stands_for_nodes_from_lower(
                            nodes,
                            built(nodes, child_after(nodes, n), Some((n, o.style)), rules),
                            Some(n),
                            place_of(nodes, child_after(nodes, n)),
                            n as int + 1,
                        );
                    },
                }
            }
        },
    }
}

/// A lower bound may be lowered.
pub proof fn lemma_stands_for_nodes_from_lower(
    nodes: Seq<NodeView>,
    l: Link,
    parent: Option<usize>,
    lower: int,
    lowered: int,
)
    requires
        stands_for_nodes(nodes, l, parent, lower),
        lowered <= lower,
    ensures
        stands_for_nodes(nodes, l, parent, lowered),
{
}

/// Setting the sizes changes no node, kind, parent or style.
pub proof fn lemma_sized_stands_for_nodes(
    nodes: Seq<NodeView>,
    l: Link,
    parent: Option<usize>,
    lower: int,
    parent_size: LayoutSize,
)
    requires
        stands_for_nodes(nodes, l, parent, lower),
        sized(l, parent_size).ok,
    ensures
        stands_for_nodes(nodes, sized(l, parent_size).tree, parent, lower),
    decreases l,
{
    match l {
        None => {},
        Some(n) => {
            let for_children = size_for_children(*n, parent_size);
            let children = sized(n.first_child, for_children);
            let siblings = sized(n.next_sibling, parent_size);
            let o = LayoutObjectView {
                first_child: children.tree,
                next_sibling: siblings.tree,
                size: for_children,
                ..*n
            };
            assert(computed_size(o, parent_size) is Some);
            lemma_sized_stands_for_nodes(nodes, n.first_child, Some(n.node), n.node + 1, for_children);
            lemma_sized_stands_for_nodes(nodes, n.next_sibling, parent, n.node + 1, parent_size);
        },
    }
}

/// Setting the positions changes no node, kind, parent or style.
pub proof fn lemma_positioned_stands_for_nodes(
    nodes: Seq<NodeView>,
    l: Link,
    parent: Option<usize>,
    lower: int,
    parent_point: LayoutPoint,
    previous_sibling_kind: LayoutObjectKind,
    previous_sibling_point: Option<LayoutPoint>,
    previous_sibling_size: Option<LayoutSize>,
)
    requires
        stands_for_nodes(nodes, l, parent, lower),
        positioned(
            l,
            parent_point,
            previous_sibling_kind,
            previous_sibling_point,
            previous_sibling_size,
        ).ok,
    ensures
        stands_for_nodes(
            nodes,
            positioned(
                l,
                parent_point,
                previous_sibling_kind,
                previous_sibling_point,
                previous_sibling_size,
            ).tree,
            parent,
            lower,
        ),
    decreases l,
{
    match l {
        None => {},
        Some(n) => {
            let point = computed_position(
                n.kind,
                parent_point,
                previous_sibling_kind,
                previous_sibling_point,
                previous_sibling_size,
            )->0;
            lemma_positioned_stands_for_nodes(
                nodes,
                n.first_child,
                Some(n.node),
                n.node + 1,
                point,
                LayoutObjectKind::Block,
                None,
                None,
            );
            lemma_positioned_stands_for_nodes(
                nodes,
                n.next_sibling,
                parent,
                n.node + 1,
                parent_point,
                n.kind,
                Some(point),
                Some(n.size),
            );
        },
    }
}

/// The layout of a document stands for the nodes of that document, and
/// its root, where there is one, stands for the first `body`, or for a
/// sibling after it where the display of `body` is `none`.
pub proof fn lemma_layout_stands_for_nodes(nodes: Seq<NodeView>, rules: Seq<RuleView>)
    requires
        laid_out(nodes, rules).ok,
    ensures
        stands_for_nodes(
            nodes,
            laid_out(nodes, rules).tree,
            None,
            place_of(nodes, target_element(nodes, Some(0usize), ElementKind::Body)),
        ),
{
    let body = target_element(nodes, Some(0usize), ElementKind::Body);
    let tree = built(nodes, body, None, rules);
    lemma_built_stands_for_nodes(nodes, body, None, rules);
    lemma_sized_stands_for_nodes(nodes, tree, None, place_of(nodes, body), root_parent_size());
    lemma_positioned_stands_for_nodes(
        nodes,
        sized(tree, root_parent_size()).tree,
        None,
        place_of(nodes, body),
        LayoutPoint { x: 0, y: 0 },
        LayoutObjectKind::Block,
        None,
        None,
    );
}

/// Where in the display list the items of the object at place `i` start:
/// behind all that the objects before it paint.
pub open spec fn items_start(objects: Seq<LayoutObjectView>, i: int) -> int {
    painted_in_order(objects.take(i)).len() as int
}

/// The items of an object stand together in the display list, and before
/// the items of every object that comes after it: the items of the object
/// at place `i` are those from `items_start(objects, i)` on, and they end
/// where those of the object at place `i + 1` start.
pub proof fn lemma_items_stand_in_order(objects: Seq<LayoutObjectView>, i: int)
    requires
        0 <= i < objects.len(),
    ensures
        items_start(objects, i) + own_items(objects[i]).len() == items_start(objects, i + 1),
        items_start(objects, i + 1) <= painted_in_order(objects).len(),
        painted_in_order(objects).subrange(
            items_start(objects, i),
            items_start(objects, i + 1),
        ) == own_items(objects[i]),
{
    let before = objects.take(i);
    let upto = objects.take(i + 1);
    let rest = objects.skip(i + 1);
    assert(upto.drop_last() =~= before);
    assert(upto.last() == objects[i]);
    assert(painted_in_order(upto) == painted_in_order(before) + own_items(objects[i]));
    assert(objects =~= upto + rest);
    lemma_painted_in_order_concat(upto, rest);
    assert(painted_in_order(objects).subrange(
        items_start(objects, i),
        items_start(objects, i + 1),
    ) =~= own_items(objects[i]));
}

/// Of two objects, the one that comes first has its items first.
pub proof fn lemma_earlier_object_paints_first(objects: Seq<LayoutObjectView>, i: int, j: int)
    requires
        0 <= i < j < objects.len(),
    ensures
        items_start(objects, i) + own_items(objects[i]).len() <= items_start(objects, j),
    decreases j - i,
{
    lemma_items_stand_in_order(objects, i);
    if i + 1 < j {
        lemma_earlier_object_paints_first(objects, i + 1, j);
        lemma_items_stand_in_order(objects, i + 1);
    }
}

/// A squeezed text holds no whitespace but single spaces between its
/// words: it neither starts nor ends with a space, no space follows a
/// space, and no other whitespace is left in it.
pub proof fn lemma_squeeze_shape(s: Seq<char>)
    ensures
        squeeze(s).len() <= s.len(),
        squeeze(s).len() > 0 ==> !is_text_whitespace(squeeze(s)[0]) && !is_text_whitespace(
            squeeze(s).last(),
        ),
        forall|i: int|
            0 <= i < squeeze(s).len() && is_text_whitespace(#[trigger] squeeze(s)[i]) ==> squeeze(
                s,
            )[i] == ' ',
        forall|i: int|
            0 <= i < squeeze(s).len() - 1 && (#[trigger] squeeze(s)[i]) == ' ' ==> squeeze(s)[i
                + 1] != ' ',
    decreases s.len(),
{
    if s.len() > 0 {
        lemma_squeeze_shape(s.drop_last());
        let init = squeeze(s.drop_last());
        let all = squeeze(s);
        if !is_text_whitespace(s.last()) {
            if s.len() >= 2 && is_text_whitespace(s[s.len() - 2]) && init.len() > 0 {
                assert(all == init.push(' ').push(s.last()));
                assert(s.drop_last().last() == s[s.len() - 2]);
                assert(init == squeeze(s.drop_last().drop_last()));
                lemma_squeeze_shape(s.drop_last().drop_last());
                assert forall|i: int|
                    0 <= i < all.len() - 1 && (#[trigger] all[i]) == ' ' implies all[i + 1]
                    != ' ' by {
                    if i < init.len() - 1 {
                        assert(all[i] == init[i]);
                        assert(all[i + 1] == init[i + 1]);
                    } else if i == init.len() - 1 {
                        assert(all[i] == init.last());
                    }
                }
                assert forall|i: int|
                    0 <= i < all.len() && is_text_whitespace(#[trigger] all[i]) implies all[i]
                    == ' ' by {
                    if i < init.len() {
                        assert(all[i] == init[i]);
                    }
                }
            } else {
                assert(all == init.push(s.last()));
                assert forall|i: int|
                    0 <= i < all.len() - 1 && (#[trigger] all[i]) == ' ' implies all[i + 1]
                    != ' ' by {
                    assert(all[i] == init[i]);
                    if i < init.len() - 1 {
                        assert(all[i + 1] == init[i + 1]);
                    } else {
                        assert(all[i] == init.last());
                    }
                }
                assert forall|i: int|
                    0 <= i < all.len() && is_text_whitespace(#[trigger] all[i]) implies all[i]
                    == ' ' by {
                    if i < init.len() {
                        assert(all[i] == init[i]);
                    }
                }
            }
        }
    }
}

/// Every line of a wrapped text fits: it is no wider than a line may be.
pub proof fn lemma_split_lines_fit(line: Seq<char>, char_width: int)
    requires
        1 <= char_width <= line_limit(),
    ensures
        forall|i: int|
            0 <= i < split_lines(line, char_width).len() ==> (#[trigger] split_lines(
                line,
                char_width,
            )[i]).len() * char_width <= line_limit(),
    decreases line.len(),
{
    let lines = split_lines(line, char_width);
    if line.len() * char_width > line_limit() {
        lemma_split_progress(line, char_width);
        let max_index = line_limit() / char_width;
        let at = break_index(line, max_index);
        let first = line.take(at);
        let rest = split_lines(trim(line.skip(at)), char_width);
        lemma_split_lines_fit(trim(line.skip(at)), char_width);
        assert(lines == seq![first] + rest);
        assert(first.len() * char_width <= line_limit()) by (nonlinear_arith)
            requires
                0 <= first.len() <= max_index,
                max_index == line_limit() / char_width,
                1 <= char_width,
                line_limit() == 605,
        ;
        assert forall|i: int| 0 <= i < lines.len() implies (#[trigger] lines[i]).len() * char_width
            <= line_limit() by {
            if i > 0 {
                assert(lines[i] == rest[i - 1]);
            }
        }
    } else {
        assert(lines == seq![line]);
    }
}

/// A text is broken only where it has a space, unless it has none
/// among the characters that go into one line: then it is broken behind
/// the last of them.
pub proof fn lemma_split_breaks_at_space(line: Seq<char>, char_width: int)
    requires
        1 <= char_width <= line_limit(),
        line.len() * char_width > line_limit(),
    ensures
        ({
            let max_index = line_limit() / char_width;
            let at = break_index(line, max_index);
            &&& split_lines(line, char_width)[0] == line.take(at)
            &&& 0 <= at <= max_index < line.len()
            &&& at < max_index ==> line[at] == ' '
            &&& forall|j: int| at < j < max_index ==> line[j] != ' '
        }),
{
    lemma_split_progress(line, char_width);
    lemma_break_index(line, line_limit() / char_width, line_limit() / char_width);
}

} // verus!
