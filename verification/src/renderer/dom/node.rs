//! The nodes of a document and the window that owns them.
//!
//! All the nodes of one document live in the window, in the order in which
//! they were made, and name each other by their place in that order: the
//! document itself is node 0.

use crate::renderer::css::cssom::QualifiedRule;
use crate::renderer::css::cssom::StyleSheet;
use crate::renderer::css::cssom::StyleSheetView;
use crate::renderer::css::cssom::rules_view;
use crate::renderer::html::attribute::attributes_view;
use crate::renderer::html::attribute::clone_attributes;
use crate::renderer::html::attribute::find_attribute;
use crate::renderer::html::attribute::has_attribute;
use crate::renderer::html::attribute::Attribute;
use crate::renderer::html::attribute::AttributeView;
use crate::utils::push_char;
use crate::utils::str_eq;
use vstd::prelude::*;
use vstd::std_specs::cmp::PartialEqSpecImpl;

verus! {

#[derive(Debug, Clone, Copy, PartialEq, Eq, Structural)]
pub enum ElementKind {
    Html,
    Head,
    Style,
    Script,
    Body,
    P,
    H1,
    H2,
    A,
}

impl ElementKind {
    /// The tag name of this kind of element.
    pub open spec fn spec_name(self) -> Seq<char> {
        match self {
            ElementKind::Html => "html"@,
            ElementKind::Head => "head"@,
            ElementKind::Style => "style"@,
            ElementKind::Script => "script"@,
            ElementKind::Body => "body"@,
            ElementKind::P => "p"@,
            ElementKind::H1 => "h1"@,
            ElementKind::H2 => "h2"@,
            ElementKind::A => "a"@,
        }
    }

    /// The kind of element that a tag name stands for, if it is a
    /// supported one.
    pub open spec fn spec_from_str(s: Seq<char>) -> Option<ElementKind> {
        if s == "html"@ {
            Some(ElementKind::Html)
        } else if s == "head"@ {
            Some(ElementKind::Head)
        } else if s == "style"@ {
            Some(ElementKind::Style)
        } else if s == "script"@ {
            Some(ElementKind::Script)
        } else if s == "body"@ {
            Some(ElementKind::Body)
        } else if s == "p"@ {
            Some(ElementKind::P)
        } else if s == "h1"@ {
            Some(ElementKind::H1)
        } else if s == "h2"@ {
            Some(ElementKind::H2)
        } else if s == "a"@ {
            Some(ElementKind::A)
        } else {
            None
        }
    }

    /// The kind of element that the tag name `s` stands for. A name that
    /// is not supported comes back as the error.
    pub fn from_str(s: &str) -> (r: Result<ElementKind, String>)
        ensures
            match r {
                Ok(kind) => ElementKind::spec_from_str(s@) == Some(kind),
                Err(name) => ElementKind::spec_from_str(s@) is None && name@ == s@,
            },
    {
        if str_eq(s, "html") {
            Ok(ElementKind::Html)
        } else if str_eq(s, "head") {
            Ok(ElementKind::Head)
        } else if str_eq(s, "style") {
            Ok(ElementKind::Style)
        } else if str_eq(s, "script") {
            Ok(ElementKind::Script)
        } else if str_eq(s, "body") {
            Ok(ElementKind::Body)
        } else if str_eq(s, "p") {
            Ok(ElementKind::P)
        } else if str_eq(s, "h1") {
            Ok(ElementKind::H1)
        } else if str_eq(s, "h2") {
            Ok(ElementKind::H2)
        } else if str_eq(s, "a") {
            Ok(ElementKind::A)
        } else {
            Err(s.to_owned())
        }
    }

    /// The tag name of this kind of element.
    pub fn name(&self) -> (s: String)
        ensures
            s@ == self.spec_name(),
    {
        match self {
            ElementKind::Html => "html".to_owned(),
            ElementKind::Head => "head".to_owned(),
            ElementKind::Style => "style".to_owned(),
            ElementKind::Script => "script".to_owned(),
            ElementKind::Body => "body".to_owned(),
            ElementKind::P => "p".to_owned(),
            ElementKind::H1 => "h1".to_owned(),
            ElementKind::H2 => "h2".to_owned(),
            ElementKind::A => "a".to_owned(),
        }
    }

    /// Every kind is the kind that its own tag name stands for.
    pub proof fn lemma_name_round_trip(self)
        ensures
            ElementKind::spec_from_str(self.spec_name()) == Some(self),
    {
        reveal_strlit("html");
        reveal_strlit("head");
        reveal_strlit("style");
        reveal_strlit("script");
        reveal_strlit("body");
        reveal_strlit("p");
        reveal_strlit("h1");
        reveal_strlit("h2");
        reveal_strlit("a");
        let s = self.spec_name();
        match self {
            ElementKind::Html => {
                assert(s.len() == 4);
            },
            ElementKind::Head => {
                assert(s.len() == 4 && s[1] == 'e');
            },
            ElementKind::Style => {
                assert(s.len() == 5);
            },
            ElementKind::Script => {
                assert(s.len() == 6);
            },
            ElementKind::Body => {
                assert(s.len() == 4 && s[0] == 'b');
            },
            ElementKind::P => {
                assert(s.len() == 1 && s[0] == 'p');
            },
            ElementKind::H1 => {
                assert(s.len() == 2 && s[1] == '1');
            },
            ElementKind::H2 => {
                assert(s.len() == 2 && s[1] == '2');
            },
            ElementKind::A => {
                assert(s.len() == 1 && s[0] == 'a');
            },
        }
    }
}

/// What an [`Element`] holds.
pub struct ElementView {
    pub kind: ElementKind,
    pub attributes: Seq<AttributeView>,
}

#[derive(Debug, PartialEq, Eq)]
pub struct Element {
    kind: ElementKind,
    attributes: Vec<Attribute>,
}

impl View for Element {
    type V = ElementView;

    closed spec fn view(&self) -> ElementView {
        ElementView { kind: self.kind, attributes: attributes_view(self.attributes@) }
    }
}

impl Clone for Element {
    fn clone(&self) -> (r: Self)
        ensures
            r@ == self@,
    {
        Self { kind: self.kind, attributes: clone_attributes(&self.attributes) }
    }
}

impl Element {
    /// The element with the tag name `element_name`, which is a supported
    /// one, and the given attributes.
    pub fn new(element_name: &str, attributes: Vec<Attribute>) -> (e: Self)
        requires
            ElementKind::spec_from_str(element_name@) is Some,
        ensures
            e@ == (ElementView {
                kind: ElementKind::spec_from_str(element_name@)->0,
                attributes: attributes_view(attributes@),
            }),
    {
        match ElementKind::from_str(element_name) {
            Ok(kind) => Self { kind, attributes },
            Err(_) => Self { kind: ElementKind::Html, attributes },
        }
    }

    /// The element of the given kind with the given attributes.
    pub fn of_kind(kind: ElementKind, attributes: Vec<Attribute>) -> (e: Self)
        ensures
            e@ == (ElementView { kind, attributes: attributes_view(attributes@) }),
    {
        Self { kind, attributes }
    }

    pub fn kind(&self) -> (k: ElementKind)
        ensures
            k == self@.kind,
    {
        self.kind
    }

    /// Whether the element is laid out as a block when no style says
    /// otherwise: `body`, `h1`, `h2` and `p` are.
    pub fn is_block_element(&self) -> (r: bool)
        ensures
            r == is_block_kind(self@.kind),
    {
        match self.kind {
            ElementKind::Body | ElementKind::H1 | ElementKind::H2 | ElementKind::P => true,
            _ => false,
        }
    }

    /// Whether the element has an attribute with the given name and value.
    pub fn has_attribute(&self, name: &str, value: &str) -> (r: bool)
        ensures
            r == has_attribute(self@.attributes, name@, value@),
    {
        find_attribute(&self.attributes, name, value)
    }

    pub fn attributes(&self) -> (attrs: Vec<Attribute>)
        ensures
            attributes_view(attrs@) == self@.attributes,
    {
        clone_attributes(&self.attributes)
    }
}

/// The kinds of element that are blocks by default.
pub open spec fn is_block_kind(kind: ElementKind) -> bool {
    kind == ElementKind::Body || kind == ElementKind::H1 || kind == ElementKind::H2 || kind
        == ElementKind::P
}

/// What a [`NodeKind`] holds.
pub enum NodeKindView {
    Document,
    Element(ElementView),
    Text(Seq<char>),
}

#[derive(Debug, Eq)]
pub enum NodeKind {
    Document,
    Element(Element),
    Text(String),
}

impl View for NodeKind {
    type V = NodeKindView;

    open spec fn view(&self) -> NodeKindView {
        match self {
            NodeKind::Document => NodeKindView::Document,
            NodeKind::Element(e) => NodeKindView::Element(e@),
            NodeKind::Text(s) => NodeKindView::Text(s@),
        }
    }
}

impl Clone for NodeKind {
    fn clone(&self) -> (r: Self)
        ensures
            r@ == self@,
    {
        match self {
            NodeKind::Document => NodeKind::Document,
            NodeKind::Element(e) => NodeKind::Element(e.clone()),
            NodeKind::Text(s) => NodeKind::Text(s.clone()),
        }
    }
}

/// Whether two node kinds are of the same sort: both the document, both
/// elements of one kind, or both text. Attributes and the text itself do
/// not count.
pub open spec fn same_sort(a: NodeKindView, b: NodeKindView) -> bool {
    match a {
        NodeKindView::Document => b is Document,
        NodeKindView::Element(e1) => match b {
            NodeKindView::Element(e2) => e1.kind == e2.kind,
            _ => false,
        },
        NodeKindView::Text(_) => b is Text,
    }
}

impl PartialEq for NodeKind {
    fn eq(&self, other: &Self) -> (r: bool) {
        match self {
            NodeKind::Document => match other {
                NodeKind::Document => true,
                _ => false,
            },
            NodeKind::Element(e1) => match other {
                NodeKind::Element(e2) => e1.kind() == e2.kind(),
                _ => false,
            },
            NodeKind::Text(_) => match other {
                NodeKind::Text(_) => true,
                _ => false,
            },
        }
    }
}

impl PartialEqSpecImpl for NodeKind {
    open spec fn obeys_eq_spec() -> bool {
        true
    }

    open spec fn eq_spec(&self, other: &Self) -> bool {
        same_sort(self@, other@)
    }
}

/// What a [`Node`] holds: its kind and the places of its relatives.
pub struct NodeView {
    pub kind: NodeKindView,
    pub window: bool,
    pub parent: Option<usize>,
    pub first_child: Option<usize>,
    pub last_child: Option<usize>,
    pub previous_sibling: Option<usize>,
    pub next_sibling: Option<usize>,
}

#[derive(Debug)]
pub struct Node {
    pub kind: NodeKind,
    window: bool,
    parent: Option<usize>,
    first_child: Option<usize>,
    last_child: Option<usize>,
    previous_sibling: Option<usize>,
    next_sibling: Option<usize>,
}

impl View for Node {
    type V = NodeView;

    closed spec fn view(&self) -> NodeView {
        NodeView {
            kind: self.kind@,
            window: self.window,
            parent: self.parent,
            first_child: self.first_child,
            last_child: self.last_child,
            previous_sibling: self.previous_sibling,
            next_sibling: self.next_sibling,
        }
    }
}

impl Clone for Node {
    fn clone(&self) -> (r: Self)
        ensures
            r@ == self@,
    {
        Self {
            kind: self.kind.clone(),
            window: self.window,
            parent: self.parent,
            first_child: self.first_child,
            last_child: self.last_child,
            previous_sibling: self.previous_sibling,
            next_sibling: self.next_sibling,
        }
    }
}

impl PartialEq for Node {
    fn eq(&self, other: &Self) -> (r: bool) {
        self.kind == other.kind
    }
}

impl PartialEqSpecImpl for Node {
    open spec fn obeys_eq_spec() -> bool {
        true
    }

    open spec fn eq_spec(&self, other: &Self) -> bool {
        same_sort(self@.kind, other@.kind)
    }
}

/// A node of the given kind without relatives.
pub open spec fn lone_node(kind: NodeKindView) -> NodeView {
    NodeView {
        kind,
        window: false,
        parent: None,
        first_child: None,
        last_child: None,
        previous_sibling: None,
        next_sibling: None,
    }
}

impl Node {
    /// A node of the given kind that belongs to no tree yet.
    pub fn new(kind: NodeKind) -> (n: Self)
        ensures
            n@ == lone_node(kind@),
    {
        Self {
            kind,
            window: false,
            parent: None,
            first_child: None,
            last_child: None,
            previous_sibling: None,
            next_sibling: None,
        }
    }

    pub fn set_parent(&mut self, parent: Option<usize>)
        ensures
            final(self)@ == (NodeView { parent, ..old(self)@ }),
    {
        self.parent = parent;
    }

    pub fn parent(&self) -> (r: Option<usize>)
        ensures
            r == self@.parent,
    {
        self.parent
    }

    pub fn set_first_child(&mut self, first_child: Option<usize>)
        ensures
            final(self)@ == (NodeView { first_child, ..old(self)@ }),
    {
        self.first_child = first_child;
    }

    pub fn first_child(&self) -> (r: Option<usize>)
        ensures
            r == self@.first_child,
    {
        self.first_child
    }

    pub fn set_last_child(&mut self, last_child: Option<usize>)
        ensures
            final(self)@ == (NodeView { last_child, ..old(self)@ }),
    {
        self.last_child = last_child;
    }

    pub fn last_child(&self) -> (r: Option<usize>)
        ensures
            r == self@.last_child,
    {
        self.last_child
    }

    pub fn set_previous_sibling(&mut self, previous_sibling: Option<usize>)
        ensures
            final(self)@ == (NodeView { previous_sibling, ..old(self)@ }),
    {
        self.previous_sibling = previous_sibling;
    }

    pub fn previous_sibling(&self) -> (r: Option<usize>)
        ensures
            r == self@.previous_sibling,
    {
        self.previous_sibling
    }

    pub fn set_next_sibling(&mut self, next_sibling: Option<usize>)
        ensures
            final(self)@ == (NodeView { next_sibling, ..old(self)@ }),
    {
        self.next_sibling = next_sibling;
    }

    pub fn next_sibling(&self) -> (r: Option<usize>)
        ensures
            r == self@.next_sibling,
    {
        self.next_sibling
    }

    /// Records whether the node is the document of a window.
    pub fn set_window(&mut self, window: bool)
        ensures
            final(self)@ == (NodeView { window, ..old(self)@ }),
    {
        self.window = window;
    }

    pub fn kind(&self) -> (k: NodeKind)
        ensures
            k@ == self@.kind,
    {
        self.kind.clone()
    }

    /// The kind of the node, without a copy.
    pub fn kind_ref(&self) -> (k: &NodeKind)
        ensures
            k@ == self@.kind,
    {
        &self.kind
    }

    /// The element that this node is, if it is one.
    pub fn get_element(&self) -> (e: Option<Element>)
        ensures
            match self@.kind {
                NodeKindView::Element(v) => e matches Some(x) && x@ == v,
                _ => e is None,
            },
    {
        match &self.kind {
            NodeKind::Document | NodeKind::Text(_) => None,
            NodeKind::Element(e) => Some(e.clone()),
        }
    }

    /// The kind of element that this node is, if it is one.
    pub fn element_kind(&self) -> (k: Option<ElementKind>)
        ensures
            match self@.kind {
                NodeKindView::Element(v) => k == Some(v.kind),
                _ => k is None,
            },
    {
        match &self.kind {
            NodeKind::Document | NodeKind::Text(_) => None,
            NodeKind::Element(e) => Some(e.kind()),
        }
    }
}

/// The views of a sequence of nodes, in the same order.
pub open spec fn nodes_view(nodes: Seq<Node>) -> Seq<NodeView> {
    nodes.map_values(|n: Node| n@)
}

/// What a [`Window`] holds: the nodes of its document, in the order in
/// which they were made, and the rules of its style sheet.
pub struct WindowView {
    pub nodes: Seq<NodeView>,
    pub style: StyleSheetView,
}

/// Whether node `i` and its relatives agree about each other.
///
/// Only node 0 is the document, and it has no parent and no siblings. Every
/// other node has a parent, which was made before it. Children and next
/// siblings were made after the node that names them. The first child has
/// no previous sibling and the last child no next one; both name the node
/// as their parent. Siblings name each other and have the same parent. A
/// node without previous sibling is its parent's first child, one without
/// next sibling its parent's last.
pub open spec fn links_agree(nodes: Seq<NodeView>, i: int) -> bool
    recommends
        0 <= i < nodes.len(),
{
    let n = nodes[i];
    &&& (n.kind is Document <==> i == 0)
    &&& (i == 0 ==> n.parent is None && n.previous_sibling is None && n.next_sibling is None)
    &&& (i != 0 ==> n.parent is Some)
    &&& (n.parent matches Some(p) ==> p < i)
    &&& (n.first_child matches Some(c) ==> i < c < nodes.len() && nodes[c as int].parent == Some(
        i as usize,
    ) && nodes[c as int].previous_sibling is None)
    &&& (n.last_child matches Some(c) ==> i < c < nodes.len() && nodes[c as int].parent == Some(
        i as usize,
    ) && nodes[c as int].next_sibling is None)
    &&& (n.first_child is None <==> n.last_child is None)
    &&& (n.next_sibling matches Some(s) ==> i < s < nodes.len()
        && nodes[s as int].previous_sibling == Some(i as usize) && nodes[s as int].parent
        == n.parent)
    &&& (n.previous_sibling matches Some(s) ==> s < i && nodes[s as int].next_sibling == Some(
        i as usize,
    ) && nodes[s as int].parent == n.parent)
    &&& (n.parent matches Some(p) ==> (n.previous_sibling is None ==> nodes[p as int].first_child
        == Some(i as usize)) && (n.next_sibling is None ==> nodes[p as int].last_child == Some(
        i as usize,
    )))
}

/// Whether the nodes form one tree under the document.
pub open spec fn tree_wf(nodes: Seq<NodeView>) -> bool {
    &&& 1 <= nodes.len() <= usize::MAX
    &&& forall|i: int| 0 <= i < nodes.len() ==> #[trigger] links_agree(nodes, i)
}

/// The sibling that follows node `c`, where it was made after `c`.
pub open spec fn following(nodes: Seq<NodeView>, c: usize) -> Option<usize>
    recommends
        c < nodes.len(),
{
    match nodes[c as int].next_sibling {
        Some(n) => if c < n < nodes.len() {
            Some(n)
        } else {
            None
        },
        None => None,
    }
}

/// How many nodes were made before the one named by `start`; all of them
/// where `start` names none.
pub open spec fn place_of(nodes: Seq<NodeView>, start: Option<usize>) -> int {
    match start {
        Some(c) => if c < nodes.len() {
            c as int
        } else {
            nodes.len() as int
        },
        None => nodes.len() as int,
    }
}

/// The node and the siblings after it, in order; nothing for `None`.
pub open spec fn siblings_from(nodes: Seq<NodeView>, start: Option<usize>) -> Seq<usize>
    decreases nodes.len() - place_of(nodes, start),
{
    match start {
        Some(c) => if c < nodes.len() {
            seq![c] + siblings_from(nodes, following(nodes, c))
        } else {
            Seq::empty()
        },
        None => Seq::empty(),
    }
}

/// The children of node `i`, in order.
pub open spec fn children_of(nodes: Seq<NodeView>, i: int) -> Seq<usize>
    recommends
        0 <= i < nodes.len(),
{
    siblings_from(nodes, nodes[i].first_child)
}

/// The nodes after a new node of kind `kind` has been made the last child
/// of node `parent`.
pub open spec fn with_child(nodes: Seq<NodeView>, parent: usize, kind: NodeKindView) -> Seq<
    NodeView,
>
    recommends
        parent < nodes.len(),
{
    let id = nodes.len() as usize;
    let p = nodes[parent as int];
    let child = NodeView {
        kind,
        window: false,
        parent: Some(parent),
        first_child: None,
        last_child: None,
        previous_sibling: p.last_child,
        next_sibling: None,
    };
    let linked = match p.last_child {
        Some(last) => nodes.update(
            last as int,
            NodeView { next_sibling: Some(id), ..nodes[last as int] },
        ),
        None => nodes,
    };
    linked.update(
        parent as int,
        NodeView {
            first_child: if p.first_child is None {
                Some(id)
            } else {
                linked[parent as int].first_child
            },
            last_child: Some(id),
            ..linked[parent as int]
        },
    ).push(child)
}

/// The nodes after `c` has been appended to the text of node `i`.
pub open spec fn with_text_char(nodes: Seq<NodeView>, i: usize, c: char) -> Seq<NodeView>
    recommends
        i < nodes.len(),
        nodes[i as int].kind is Text,
{
    match nodes[i as int].kind {
        NodeKindView::Text(s) => nodes.update(
            i as int,
            NodeView { kind: NodeKindView::Text(s.push(c)), ..nodes[i as int] },
        ),
        _ => nodes,
    }
}

/// How `with_child` changes the nodes: the new node stands at the end;
/// the parent names it as its last child, and as its first where it had
/// none; the former last child names it as its next sibling; nothing
/// else changes.
pub proof fn lemma_with_child_shape(nodes: Seq<NodeView>, parent: usize, kind: NodeKindView)
    requires
        tree_wf(nodes),
        parent < nodes.len(),
        nodes.len() < usize::MAX,
    ensures
        with_child(nodes, parent, kind).len() == nodes.len() + 1,
        with_child(nodes, parent, kind)[nodes.len() as int] == (NodeView {
            parent: Some(parent),
            previous_sibling: nodes[parent as int].last_child,
            ..lone_node(kind)
        }),
        with_child(nodes, parent, kind)[parent as int] == (NodeView {
            first_child: if nodes[parent as int].first_child is None {
                Some(nodes.len() as usize)
            } else {
                nodes[parent as int].first_child
            },
            last_child: Some(nodes.len() as usize),
            ..nodes[parent as int]
        }),
        forall|i: int|
            0 <= i < nodes.len() && i != parent && nodes[parent as int].last_child != Some(
                i as usize,
            ) ==> #[trigger] with_child(nodes, parent, kind)[i] == nodes[i],
        forall|i: int|
            0 <= i < nodes.len() && nodes[parent as int].last_child == Some(i as usize)
                ==> #[trigger] with_child(nodes, parent, kind)[i] == (NodeView {
                next_sibling: Some(nodes.len() as usize),
                ..nodes[i]
            }),
{
    assert(links_agree(nodes, parent as int));
}

/// A new last child keeps the tree well formed.
pub proof fn lemma_with_child_wf(nodes: Seq<NodeView>, parent: usize, kind: NodeKindView)
    requires
        tree_wf(nodes),
        parent < nodes.len(),
        nodes.len() < usize::MAX,
        !(kind is Document),
    ensures
        tree_wf(with_child(nodes, parent, kind)),
{
    let after = with_child(nodes, parent, kind);
    lemma_with_child_shape(nodes, parent, kind);
    assert forall|i: int| 0 <= i < after.len() implies #[trigger] links_agree(after, i) by {
        lemma_with_child_links(nodes, parent, kind, i);
    }
}

/// After a new last child has been added, node `i` and its relatives
/// still agree.
proof fn lemma_with_child_links(nodes: Seq<NodeView>, parent: usize, kind: NodeKindView, i: int)
    requires
        tree_wf(nodes),
        parent < nodes.len(),
        nodes.len() < usize::MAX,
        !(kind is Document),
        0 <= i <= nodes.len(),
    ensures
        links_agree(with_child(nodes, parent, kind), i),
{
    let after = with_child(nodes, parent, kind);
    let id = nodes.len() as usize;
    lemma_with_child_shape(nodes, parent, kind);
    assert(links_agree(nodes, parent as int));
    let last = nodes[parent as int].last_child;
    match last {
        Some(l) => {
            assert(links_agree(nodes, l as int));
            assert(after[l as int] == (NodeView { next_sibling: Some(id), ..nodes[l as int] }));
        },
        None => {},
    }
    if i == nodes.len() {
    } else {
        assert(links_agree(nodes, i));
        let n = nodes[i];
        let a = after[i];
        assert(a.kind == n.kind && a.parent == n.parent && a.previous_sibling
            == n.previous_sibling);
        match n.parent {
            Some(p) => {
                assert(links_agree(nodes, p as int));
                assert(after[p as int].first_child == nodes[p as int].first_child
                    || nodes[p as int].first_child is None);
            },
            None => {},
        }
        match n.first_child {
            Some(c) => {
                assert(links_agree(nodes, c as int));
                assert(after[c as int].parent == nodes[c as int].parent);
                assert(after[c as int].previous_sibling == nodes[c as int].previous_sibling);
            },
            None => {},
        }
        match n.last_child {
            Some(c) => {
                assert(links_agree(nodes, c as int));
                assert(after[c as int].parent == nodes[c as int].parent);
                if i != parent {
                    assert(last != Some(c));
                    assert(after[c as int].next_sibling == nodes[c as int].next_sibling);
                }
            },
            None => {},
        }
        match n.next_sibling {
            Some(c) => {
                assert(links_agree(nodes, c as int));
                assert(after[c as int].parent == nodes[c as int].parent);
                assert(after[c as int].previous_sibling == nodes[c as int].previous_sibling);
            },
            None => {},
        }
        match n.previous_sibling {
            Some(c) => {
                assert(links_agree(nodes, c as int));
                assert(last != Some(c));
                assert(after[c as int].parent == nodes[c as int].parent);
                assert(after[c as int].next_sibling == nodes[c as int].next_sibling);
            },
            None => {},
        }
    }
}

/// A longer text keeps the tree well formed.
pub proof fn lemma_with_text_char_wf(nodes: Seq<NodeView>, i: usize, c: char)
    requires
        tree_wf(nodes),
        i < nodes.len(),
    ensures
        tree_wf(with_text_char(nodes, i, c)),
{
    let after = with_text_char(nodes, i, c);
    assert forall|k: int| 0 <= k < after.len() implies #[trigger] links_agree(after, k) by {
        assert(links_agree(nodes, k));
    }
}

#[derive(Debug)]
pub struct Window {
    nodes: Vec<Node>,
    style: StyleSheet,
}

impl View for Window {
    type V = WindowView;

    closed spec fn view(&self) -> WindowView {
        WindowView { nodes: nodes_view(self.nodes@), style: self.style@ }
    }
}

impl Clone for Window {
    fn clone(&self) -> (r: Self)
        ensures
            r@ == self@,
    {
        let mut nodes: Vec<Node> = Vec::new();
        let mut i: usize = 0;
        while i < self.nodes.len()
            invariant
                i <= self.nodes.len(),
                nodes.len() == i,
                forall|j: int| 0 <= j < i ==> nodes@[j]@ == self.nodes@[j]@,
            decreases self.nodes.len() - i,
        {
            nodes.push(self.nodes[i].clone());
            i += 1;
        }
        assert(nodes_view(nodes@) =~= nodes_view(self.nodes@));
        Self { nodes, style: self.style.clone() }
    }
}

impl Window {
    /// Whether the nodes of the window form one tree under its document.
    pub open spec fn wf(&self) -> bool {
        tree_wf(self@.nodes)
    }

    /// A window whose document has no children, and whose style sheet has
    /// no rules.
    pub fn new() -> (w: Self)
        ensures
            w.wf(),
            w@.nodes == seq![NodeView { window: true, ..lone_node(NodeKindView::Document) }],
            w@.style.rules == Seq::<crate::renderer::css::cssom::RuleView>::empty(),
    {
        let mut document = Node::new(NodeKind::Document);
        document.set_window(true);
        let mut nodes: Vec<Node> = Vec::new();
        nodes.push(document);
        let w = Self { nodes, style: StyleSheet::new() };
        assert(w@.nodes =~= seq![NodeView { window: true, ..lone_node(NodeKindView::Document) }]);
        assert(links_agree(w@.nodes, 0));
        w
    }

    /// The place of the document node.
    pub fn document(&self) -> (id: usize)
        ensures
            id == 0,
    {
        0
    }

    /// How many nodes the window holds.
    pub fn len(&self) -> (n: usize)
        ensures
            n == self@.nodes.len(),
    {
        self.nodes.len()
    }

    /// The node at place `id`.
    pub fn node(&self, id: usize) -> (n: &Node)
        requires
            id < self@.nodes.len(),
        ensures
            n@ == self@.nodes[id as int],
    {
        &self.nodes[id]
    }

    /// The node at place `id`, or `None` where the window holds no such
    /// node.
    pub fn get(&self, id: usize) -> (n: Option<&Node>)
        ensures
            id < self@.nodes.len() ==> (n matches Some(x) && x@ == self@.nodes[id as int]),
            id >= self@.nodes.len() ==> n is None,
    {
        if id < self.nodes.len() {
            Some(&self.nodes[id])
        } else {
            None
        }
    }

    /// The style sheet of the document.
    pub fn style_sheet(&self) -> (s: &StyleSheet)
        ensures
            s@ == self@.style,
    {
        &self.style
    }

    /// Adds rules at the end of the style sheet of the document.
    pub fn add_rules(&mut self, rules: Vec<QualifiedRule>)
        ensures
            final(self)@.nodes == old(self)@.nodes,
            final(self)@.style.rules == old(self)@.style.rules + rules_view(rules@),
    {
        let mut rules = rules;
        let ghost added = rules_view(rules@);
        let ghost before = rules_view(self.style.rules@);
        self.style.rules.append(&mut rules);
        assert(rules_view(self.style.rules@) =~= before + added);
    }

    /// Makes a new node of kind `kind` the last child of node `parent`,
    /// and gives its place, which is behind all the nodes made before.
    pub fn append_child(&mut self, parent: usize, kind: NodeKind) -> (id: usize)
        requires
            old(self).wf(),
            parent < old(self)@.nodes.len(),
            !(kind@ is Document),
        ensures
            final(self).wf(),
            id == old(self)@.nodes.len(),
            old(self)@.nodes.len() < usize::MAX,
            final(self)@.nodes == with_child(old(self)@.nodes, parent, kind@),
            final(self)@.style == old(self)@.style,
    {
        let id = self.nodes.len();
        let ghost before = self@.nodes;
        let last = self.nodes[parent].last_child;
        let mut child = Node::new(kind);
        child.parent = Some(parent);
        child.previous_sibling = last;
        proof {
            assert(links_agree(before, parent as int));
        }
        match last {
            Some(l) => {
                self.nodes[l].next_sibling = Some(id);
            },
            None => {
                self.nodes[parent].first_child = Some(id);
            },
        }
        self.nodes[parent].last_child = Some(id);
        self.nodes.push(child);
        proof {
            assert(self.nodes.len() == self.nodes@.len());
            assert(self@.nodes =~= with_child(before, parent, kind@));
            lemma_with_child_wf(before, parent, kind@);
        }
        id
    }

    /// Appends `c` to the text of node `id`, which is a text node.
    pub fn append_text(&mut self, id: usize, c: char)
        requires
            old(self).wf(),
            id < old(self)@.nodes.len(),
            old(self)@.nodes[id as int].kind is Text,
        ensures
            final(self).wf(),
            final(self)@.nodes == with_text_char(old(self)@.nodes, id, c),
            final(self)@.style == old(self)@.style,
    {
        let ghost before = self@.nodes;
        match &mut self.nodes[id].kind {
            NodeKind::Text(s) => {
                push_char(s, c);
            },
            _ => {},
        }
        proof {
            assert(self@.nodes =~= with_text_char(before, id, c));
            lemma_with_text_char_wf(before, id, c);
        }
    }
}

} // verus!
