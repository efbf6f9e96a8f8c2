//! The parsed page: a read-only tree, held as its nodes in document order.
//!
//! Each node carries its depth below the root. A node's subtree is the run
//! of nodes that follow it with a greater depth; its children are the nodes
//! of that run that lie exactly one level below it.

use vstd::prelude::*;
use crate::text::text_equals;

verus! {

// ---------------------------------------------------------------------
// Nodes
// ---------------------------------------------------------------------

/// An element: its tag name and the attributes that the extractors read.
#[derive(Clone, Debug, PartialEq, Eq)]
pub struct Element {
    /// The local tag name, such as `div`.
    pub name: String,
    /// The `class` attribute, if the element has one.
    pub class: Option<String>,
    /// The `property` attribute, if the element has one.
    pub property: Option<String>,
    /// The `content` attribute, if the element has one.
    pub content: Option<String>,
}

/// What a node is.
#[derive(Clone, Debug, PartialEq, Eq)]
pub enum NodeData {
    /// An element.
    Element(Element),
    /// A text node with its text.
    Text(String),
    /// Anything else: the document root, a doctype, a comment.
    Other,
}

/// A node of the page, with its depth below the root.
#[derive(Clone, Debug, PartialEq, Eq)]
pub struct DocNode {
    /// The number of ancestors of the node.
    pub depth: usize,
    /// What the node is.
    pub data: NodeData,
}

/// The mathematical value of an [`Element`].
pub struct ElementView {
    pub name: Seq<char>,
    pub class: Option<Seq<char>>,
    pub property: Option<Seq<char>>,
    pub content: Option<Seq<char>>,
}

/// The mathematical value of a [`NodeData`].
pub enum NodeDataView {
    Element(ElementView),
    Text(Seq<char>),
    Other,
}

/// The mathematical value of a [`DocNode`].
pub struct NodeView {
    pub depth: nat,
    pub data: NodeDataView,
}

/// The characters of an optional string.
pub open spec fn opt_text(o: Option<String>) -> Option<Seq<char>> {
    match o {
        Some(s) => Some(s@),
        None => None,
    }
}

impl View for Element {
    type V = ElementView;

    open spec fn view(&self) -> ElementView {
        ElementView {
            name: self.name@,
            class: opt_text(self.class),
            property: opt_text(self.property),
            content: opt_text(self.content),
        }
    }
}

impl View for NodeData {
    type V = NodeDataView;

    open spec fn view(&self) -> NodeDataView {
        match self {
            NodeData::Element(e) => NodeDataView::Element(e@),
            NodeData::Text(t) => NodeDataView::Text(t@),
            NodeData::Other => NodeDataView::Other,
        }
    }
}

impl View for DocNode {
    type V = NodeView;

    open spec fn view(&self) -> NodeView {
        NodeView { depth: self.depth as nat, data: self.data@ }
    }
}

/// The values of a sequence of nodes.
pub open spec fn node_views(nodes: Seq<DocNode>) -> Seq<NodeView> {
    nodes.map_values(|n: DocNode| n@)
}

// ---------------------------------------------------------------------
// The tree that a node sequence describes
// ---------------------------------------------------------------------

/// Whether the node is an element with the given tag name.
pub open spec fn is_element_named(node: NodeView, name: Seq<char>) -> bool {
    node.data matches NodeDataView::Element(e) && e.name == name
}

/// The first position at or after `from` whose node lies at depth `depth`
/// or above it; the length of the page if there is none.
pub open spec fn scan_end(doc: Seq<NodeView>, depth: nat, from: int) -> int
    decreases doc.len() - from,
{
    if from < 0 || from >= doc.len() {
        doc.len() as int
    } else if doc[from].depth <= depth {
        from
    } else {
        scan_end(doc, depth, from + 1)
    }
}

/// The position just past the subtree of node `i`: the nodes from `i + 1`
/// up to it are the descendants of `i`.
pub open spec fn subtree_end(doc: Seq<NodeView>, i: int) -> int {
    if 0 <= i < doc.len() {
        scan_end(doc, doc[i].depth, i + 1)
    } else {
        doc.len() as int
    }
}

/// Whether node `j` is a child of node `i`.
pub open spec fn is_child(doc: Seq<NodeView>, i: int, j: int) -> bool {
    &&& 0 <= i < j < subtree_end(doc, i)
    &&& doc[j].depth == doc[i].depth + 1
}

/// The children of node `i` that stand before position `upto`, in
/// document order.
pub open spec fn children_upto(doc: Seq<NodeView>, i: int, upto: int) -> Seq<int>
    decreases upto - i,
{
    if upto <= i + 1 {
        Seq::empty()
    } else {
        let earlier = children_upto(doc, i, upto - 1);
        if doc[upto - 1].depth == doc[i].depth + 1 {
            earlier.push(upto - 1)
        } else {
            earlier
        }
    }
}

/// The children of node `i`, in document order.
pub open spec fn children(doc: Seq<NodeView>, i: int) -> Seq<int> {
    children_upto(doc, i, subtree_end(doc, i))
}

/// The children of node `i` that are elements and stand before position
/// `upto`, in document order.
pub open spec fn element_children_upto(doc: Seq<NodeView>, i: int, upto: int) -> Seq<int>
    decreases upto - i,
{
    if upto <= i + 1 {
        Seq::empty()
    } else {
        let earlier = element_children_upto(doc, i, upto - 1);
        if doc[upto - 1].depth == doc[i].depth + 1 && doc[upto - 1].data is Element {
            earlier.push(upto - 1)
        } else {
            earlier
        }
    }
}

/// The children of node `i` that are elements, in document order. Text
/// and other nodes among the children are left out.
pub open spec fn element_children(doc: Seq<NodeView>, i: int) -> Seq<int> {
    element_children_upto(doc, i, subtree_end(doc, i))
}

/// The next sibling of node `i`: the node right after its subtree, if that
/// node lies at the same depth.
pub open spec fn next_sibling(doc: Seq<NodeView>, i: int) -> Option<int> {
    let end = subtree_end(doc, i);
    if 0 <= i < end < doc.len() && doc[end].depth == doc[i].depth {
        Some(end)
    } else {
        None
    }
}

/// The texts of the text nodes at positions `from..upto`, in document
/// order.
pub open spec fn texts_between(doc: Seq<NodeView>, from: int, upto: int) -> Seq<Seq<char>>
    decreases upto - from,
{
    if upto <= from {
        Seq::empty()
    } else {
        let earlier = texts_between(doc, from, upto - 1);
        match doc[upto - 1].data {
            NodeDataView::Text(t) => earlier.push(t),
            _ => earlier,
        }
    }
}

/// The text fragments of node `i`: the texts of the text nodes among its
/// descendants, in document order.
pub open spec fn text_fragments(doc: Seq<NodeView>, i: int) -> Seq<Seq<char>> {
    texts_between(doc, i + 1, subtree_end(doc, i))
}

/// An optional position as a mathematical integer.
pub open spec fn position(at: Option<usize>) -> Option<int> {
    match at {
        Some(k) => Some(k as int),
        None => None,
    }
}

// ---------------------------------------------------------------------
// The document
// ---------------------------------------------------------------------

/// A parsed page. The extractors only read it.
#[derive(Clone, Debug, PartialEq, Eq)]
pub struct ParsedDocument {
    /// The nodes of the page in document order, the root first.
    pub nodes: Vec<DocNode>,
}

impl View for ParsedDocument {
    type V = Seq<NodeView>;

    open spec fn view(&self) -> Seq<NodeView> {
        node_views(self.nodes@)
    }
}

/// The nodes, in document order, of the tree that an HTML parser builds
/// from the text of a page. Parsing is tolerant: every text has a tree.
pub uninterp spec fn parsed_html(html: Seq<char>) -> Seq<NodeView>;

/// Parses `html` with `scraper::Html::parse_document` and lists the nodes
/// of the resulting tree in document order, root first, each with the
/// number of its ancestors. An element keeps its tag name and its `class`,
/// `property` and `content` attributes; a text node keeps its text. The
/// contract names this list and claims nothing else about it.
#[verifier::external_body]
fn parse_nodes(html: &str) -> (nodes: Vec<DocNode>)
    ensures
        node_views(nodes@) == parsed_html(html@),
{
    let page = scraper::Html::parse_document(html);
    page.tree.root().descendants().map(|n| DocNode {
        depth: n.ancestors().count(),
        data: match n.value() {
            scraper::Node::Element(e) => NodeData::Element(
                Element::new(e.name(), e.attr("class"), e.attr("property"), e.attr("content"))),
            scraper::Node::Text(t) => NodeData::Text(t.to_string()),
            _ => NodeData::Other,
        },
    }).collect()
}

impl Element {
    /// An element with the given tag name and attributes.
    pub fn new(
        name: &str,
        class: Option<&str>,
        property: Option<&str>,
        content: Option<&str>,
    ) -> (e: Element)
        ensures
            e@.name == name@,
            e@.class == (match class { Some(s) => Some(s@), None => None }),
            e@.property == (match property { Some(s) => Some(s@), None => None }),
            e@.content == (match content { Some(s) => Some(s@), None => None }),
    {
        Element {
            name: name.to_owned(),
            class: match class { Some(s) => Some(s.to_owned()), None => None },
            property: match property { Some(s) => Some(s.to_owned()), None => None },
            content: match content { Some(s) => Some(s.to_owned()), None => None },
        }
    }
}

impl DocNode {
    /// An element node at the given depth.
    pub fn element(depth: usize, element: Element) -> (n: DocNode)
        ensures
            n@ == (NodeView { depth: depth as nat, data: NodeDataView::Element(element@) }),
    {
        DocNode { depth, data: NodeData::Element(element) }
    }

    /// A text node at the given depth.
    pub fn text(depth: usize, text: &str) -> (n: DocNode)
        ensures
            n@ == (NodeView { depth: depth as nat, data: NodeDataView::Text(text@) }),
    {
        DocNode { depth, data: NodeData::Text(text.to_owned()) }
    }

    /// A node that is neither an element nor text, at the given depth.
    pub fn other(depth: usize) -> (n: DocNode)
        ensures
            n@ == (NodeView { depth: depth as nat, data: NodeDataView::Other }),
    {
        DocNode { depth, data: NodeData::Other }
    }

    /// Whether the node is an element with the given tag name.
    pub fn is_element_named(&self, name: &str) -> (r: bool)
        ensures
            r == is_element_named(self@, name@),
    {
        match &self.data {
            NodeData::Element(e) => text_equals(e.name.as_str(), name),
            _ => false,
        }
    }
}

impl ParsedDocument {
    /// The document that holds the given nodes, in document order.
    pub fn from_nodes(nodes: Vec<DocNode>) -> (doc: ParsedDocument)
        ensures
            doc@ == node_views(nodes@),
    {
        ParsedDocument { nodes }
    }

    /// Parses the text of a page. Never fails: a garbled page yields a
    /// sparse tree.
    pub fn parse(html: &str) -> (doc: ParsedDocument)
        ensures
            doc@ == parsed_html(html@),
    {
        ParsedDocument { nodes: parse_nodes(html) }
    }

    /// The number of nodes.
    pub fn len(&self) -> (n: usize)
        ensures
            n == self@.len(),
    {
        self.nodes.len()
    }

    /// The position just past the subtree of node `i`; the number of nodes
    /// if `i` is no node.
    pub fn subtree_end(&self, i: usize) -> (end: usize)
        ensures
            end == subtree_end(self@, i as int),
            end <= self@.len(),
            i < self@.len() ==> i < end,
    {
        let n = self.nodes.len();
        if i >= n {
            return n;
        }
        let depth = self.nodes[i].depth;
        let mut j: usize = i + 1;
        while j < n && self.nodes[j].depth > depth
            invariant
                i < j <= n,
                n == self.nodes.len(),
                depth == self.nodes[i as int].depth,
                scan_end(self@, depth as nat, i + 1) == scan_end(self@, depth as nat, j as int),
            decreases n - j,
        {
            j += 1;
        }
        j
    }

    /// The children of node `i`, in document order; none if `i` is no node.
    pub fn children(&self, i: usize) -> (kids: Vec<usize>)
        ensures
            kids@.map_values(|k: usize| k as int) == children(self@, i as int),
            forall|k: int| 0 <= k < kids.len() ==> i < #[trigger] kids[k] < self@.len(),
    {
        let end = self.subtree_end(i);
        let mut kids: Vec<usize> = Vec::new();
        if i >= self.nodes.len() {
            return kids;
        }
        let depth = self.nodes[i].depth;
        let mut j: usize = i + 1;
        while j < end
            invariant
                i < j <= end <= self.nodes.len(),
                depth == self.nodes[i as int].depth,
                kids@.map_values(|k: usize| k as int) == children_upto(self@, i as int, j as int),
                forall|k: int| 0 <= k < kids.len() ==> i < #[trigger] kids[k] < self@.len(),
            decreases end - j,
        {
            let ghost before = kids@.map_values(|k: usize| k as int);
            if depth < usize::MAX && self.nodes[j].depth == depth + 1 {
                kids.push(j);
                proof {
                    assert(kids@.map_values(|k: usize| k as int) =~= before.push(j as int));
                }
            }
            j += 1;
        }
        kids
    }

    /// The children of node `i` that are elements, in document order; none
    /// if `i` is no node.
    pub fn element_children(&self, i: usize) -> (kids: Vec<usize>)
        ensures
            kids@.map_values(|k: usize| k as int) == element_children(self@, i as int),
            forall|k: int| 0 <= k < kids.len() ==> i < #[trigger] kids[k] < self@.len(),
    {
        let end = self.subtree_end(i);
        let mut kids: Vec<usize> = Vec::new();
        if i >= self.nodes.len() {
            return kids;
        }
        let depth = self.nodes[i].depth;
        let mut j: usize = i + 1;
        while j < end
            invariant
                i < j <= end <= self.nodes.len(),
                depth == self.nodes[i as int].depth,
                kids@.map_values(|k: usize| k as int) == element_children_upto(
                    self@,
                    i as int,
                    j as int,
                ),
                forall|k: int| 0 <= k < kids.len() ==> i < #[trigger] kids[k] < self@.len(),
            decreases end - j,
        {
            let ghost before = kids@.map_values(|k: usize| k as int);
            let is_element = match &self.nodes[j].data {
                NodeData::Element(_) => true,
                _ => false,
            };
            if depth < usize::MAX && self.nodes[j].depth == depth + 1 && is_element {
                kids.push(j);
                proof {
                    assert(kids@.map_values(|k: usize| k as int) =~= before.push(j as int));
                }
            }
            j += 1;
        }
        kids
    }

    /// The next sibling of node `i`, if it has one.
    pub fn next_sibling(&self, i: usize) -> (sibling: Option<usize>)
        ensures
            position(sibling) == next_sibling(self@, i as int),
            sibling matches Some(k) ==> k < self@.len(),
    {
        let end = self.subtree_end(i);
        if i < self.nodes.len() && end < self.nodes.len() && self.nodes[end].depth
            == self.nodes[i].depth {
            Some(end)
        } else {
            None
        }
    }

    /// The text fragments of node `i`, in document order; none if `i` is no
    /// node.
    pub fn text_fragments(&self, i: usize) -> (fragments: Vec<String>)
        ensures
            fragments.deep_view() == text_fragments(self@, i as int),
    {
        let end = self.subtree_end(i);
        let mut fragments: Vec<String> = Vec::new();
        if i >= self.nodes.len() {
            return fragments;
        }
        let mut j: usize = i + 1;
        while j < end
            invariant
                i < j <= end <= self.nodes.len(),
                fragments.deep_view() == texts_between(self@, i + 1, j as int),
            decreases end - j,
        {
            let ghost before = fragments.deep_view();
            match &self.nodes[j].data {
                NodeData::Text(t) => {
                    fragments.push(t.clone());
                    proof {
                        assert(fragments.deep_view() =~= before.push(t@));
                    }
                },
                _ => {},
            }
            j += 1;
        }
        fragments
    }
}

// ---------------------------------------------------------------------
// What the tree functions compute
// ---------------------------------------------------------------------

/// What `scan_end` finds: the first position at or after `from` whose node
/// lies at `depth` or above it.
proof fn lemma_scan_end(doc: Seq<NodeView>, depth: nat, from: int)
    requires
        0 <= from <= doc.len(),
    ensures
        from <= scan_end(doc, depth, from) <= doc.len(),
        forall|k: int| from <= k < scan_end(doc, depth, from) ==> (#[trigger] doc[k]).depth > depth,
        scan_end(doc, depth, from) < doc.len() ==> doc[scan_end(doc, depth, from)].depth <= depth,
    decreases doc.len() - from,
{
    if from < doc.len() && doc[from].depth > depth {
        lemma_scan_end(doc, depth, from + 1);
    }
}

/// The subtree of a node is the longest run of deeper nodes after it: every
/// node of the run lies deeper than the node, and the node after the run,
/// if there is one, does not.
pub proof fn lemma_subtree_is_the_run_of_deeper_nodes(doc: Seq<NodeView>, i: int)
    requires
        0 <= i < doc.len(),
    ensures
        i < subtree_end(doc, i) <= doc.len(),
        forall|k: int| i < k < subtree_end(doc, i) ==> (#[trigger] doc[k]).depth > doc[i].depth,
        subtree_end(doc, i) < doc.len() ==> doc[subtree_end(doc, i)].depth <= doc[i].depth,
{
    lemma_scan_end(doc, doc[i].depth, i + 1);
}

/// What `children_upto` lists: the positions between the node and `upto`
/// that lie one level below the node, in rising order.
proof fn lemma_children_upto(doc: Seq<NodeView>, i: int, upto: int)
    ensures
        forall|j: int|
            children_upto(doc, i, upto).contains(j) <==> (i < j < upto && doc[j].depth
                == doc[i].depth + 1),
        forall|a: int, b: int|
            0 <= a < b < children_upto(doc, i, upto).len() ==> children_upto(doc, i, upto)[a]
                < children_upto(doc, i, upto)[b],
    decreases upto - i,
{
    if upto > i + 1 {
        lemma_children_upto(doc, i, upto - 1);
        let earlier = children_upto(doc, i, upto - 1);
        let all = children_upto(doc, i, upto);
        if doc[upto - 1].depth == doc[i].depth + 1 {
            assert(all == earlier.push(upto - 1));
            assert forall|j: int| all.contains(j) <==> (i < j < upto && doc[j].depth == doc[i].depth
                + 1) by {
                if all.contains(j) {
                    let k = choose|k: int| 0 <= k < all.len() && all[k] == j;
                    if k < earlier.len() {
                        assert(earlier[k] == j);
                        assert(earlier.contains(j));
                    }
                }
                if i < j < upto && doc[j].depth == doc[i].depth + 1 {
                    if j == upto - 1 {
                        assert(all[all.len() - 1] == j);
                    } else {
                        assert(earlier.contains(j));
                        let k = choose|k: int| 0 <= k < earlier.len() && earlier[k] == j;
                        assert(all[k] == j);
                    }
                }
            }
            assert forall|a: int, b: int| 0 <= a < b < all.len() implies all[a] < all[b] by {
                assert(earlier.contains(earlier[a]));
            }
        }
    }
}

/// The children of a node are exactly its child nodes, in document order.
pub proof fn lemma_children_are_the_child_nodes(doc: Seq<NodeView>, i: int)
    requires
        0 <= i < doc.len(),
    ensures
        forall|j: int| children(doc, i).contains(j) <==> is_child(doc, i, j),
        forall|a: int, b: int|
            0 <= a < b < children(doc, i).len() ==> children(doc, i)[a] < children(doc, i)[b],
{
    lemma_children_upto(doc, i, subtree_end(doc, i));
}

/// What `element_children_upto` lists: the children that are elements.
proof fn lemma_element_children_upto(doc: Seq<NodeView>, i: int, upto: int)
    ensures
        forall|j: int|
            element_children_upto(doc, i, upto).contains(j) <==> (i < j < upto && doc[j].depth
                == doc[i].depth + 1 && doc[j].data is Element),
    decreases upto - i,
{
    if upto > i + 1 {
        lemma_element_children_upto(doc, i, upto - 1);
        let earlier = element_children_upto(doc, i, upto - 1);
        let all = element_children_upto(doc, i, upto);
        if doc[upto - 1].depth == doc[i].depth + 1 && doc[upto - 1].data is Element {
            assert(all == earlier.push(upto - 1));
            assert forall|j: int| all.contains(j) <==> (i < j < upto && doc[j].depth == doc[i].depth
                + 1 && doc[j].data is Element) by {
                if all.contains(j) {
                    let k = choose|k: int| 0 <= k < all.len() && all[k] == j;
                    if k < earlier.len() {
                        assert(earlier[k] == j);
                        assert(earlier.contains(j));
                    }
                }
                if i < j < upto && doc[j].depth == doc[i].depth + 1 && doc[j].data is Element {
                    if j == upto - 1 {
                        assert(all[all.len() - 1] == j);
                    } else {
                        assert(earlier.contains(j));
                        let k = choose|k: int| 0 <= k < earlier.len() && earlier[k] == j;
                        assert(all[k] == j);
                    }
                }
            }
        }
    }
}

/// The element children of a node are exactly its child nodes that are
/// elements: no text node and no other node is among them.
pub proof fn lemma_element_children_are_elements(doc: Seq<NodeView>, i: int)
    requires
        0 <= i < doc.len(),
    ensures
        forall|j: int|
            element_children(doc, i).contains(j) <==> (is_child(doc, i, j) && doc[j].data
                is Element),
{
    lemma_element_children_upto(doc, i, subtree_end(doc, i));
}

} // verus!
