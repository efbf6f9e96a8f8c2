//! The list extractor: finds the ingredients and the steps of a recipe.
//!
//! A container is a `div` element. Its class attribute decides whether it is
//! a candidate for the ingredients, for the steps, or for both. Of all the
//! candidates that have a list among their children, the last one in
//! document order gives the result: earlier ones are overwritten, not
//! appended to.

use vstd::prelude::*;
use crate::document::{
    DocNode, NodeData, NodeDataView, NodeView, ParsedDocument, element_children,
    is_element_named, position, text_fragments,
};
use crate::text::{
    contains_ignore_case, is_word, lemma_keyword_stands_in_a_name, normalize,
    normalize_ingredient, normalized, normalized_ingredient, some_name_contains,
    text_contains_ignore_case,
};

verus! {

/// The two lists of a recipe.
#[derive(Clone, Copy, Debug, PartialEq, Eq)]
pub enum ListKind {
    Ingredients,
    Steps,
}

/// Whether the node is an element whose class attribute holds `keyword`,
/// whatever the case of its letters. A keyword holds no whitespace, so it
/// stands in the attribute exactly when it stands in one of the class
/// names that the attribute lists: see [`lemma_class_name_holds_keyword`].
pub open spec fn class_has(node: NodeView, keyword: Seq<char>) -> bool {
    node.data matches NodeDataView::Element(e) && e.class is Some && contains_ignore_case(
        e.class->0,
        keyword,
    )
}

/// Whether the node is a container: a `div` element.
pub open spec fn is_container(node: NodeView) -> bool {
    is_element_named(node, "div"@)
}

/// Whether the node is a container that may hold the list of the given
/// kind.
pub open spec fn is_candidate(node: NodeView, kind: ListKind) -> bool {
    is_container(node) && match kind {
        ListKind::Ingredients => class_has(node, "ingredient"@),
        ListKind::Steps => class_has(node, "step"@) || class_has(node, "instruction"@)
            || class_has(node, "prep"@),
    }
}

/// Whether the node is an ordered or unordered list element.
pub open spec fn is_list(node: NodeView) -> bool {
    is_element_named(node, "ul"@) || is_element_named(node, "ol"@)
}

/// The first of the nodes `kids` that is a list element.
pub open spec fn first_list_among(doc: Seq<NodeView>, kids: Seq<int>) -> Option<int>
    decreases kids.len(),
{
    if kids.len() == 0 {
        None
    } else if is_list(doc[kids.first()]) {
        Some(kids.first())
    } else {
        first_list_among(doc, kids.drop_first())
    }
}

/// The list of container `i`: the first of the elements among its
/// children that is a list element.
pub open spec fn list_child(doc: Seq<NodeView>, i: int) -> Option<int> {
    first_list_among(doc, element_children(doc, i))
}

/// The text of one list item, given the fragments of its text nodes.
pub open spec fn entry_text(fragments: Seq<Seq<char>>, kind: ListKind) -> Seq<char> {
    match kind {
        ListKind::Ingredients => normalized_ingredient(fragments),
        ListKind::Steps => normalized(fragments),
    }
}

/// The entries that the nodes `kids` give: one for each `li` element among
/// them, in order.
pub open spec fn item_texts(doc: Seq<NodeView>, kids: Seq<int>, kind: ListKind) -> Seq<Seq<char>>
    decreases kids.len(),
{
    if kids.len() == 0 {
        Seq::empty()
    } else {
        let earlier = item_texts(doc, kids.drop_last(), kind);
        if is_element_named(doc[kids.last()], "li"@) {
            earlier.push(entry_text(text_fragments(doc, kids.last()), kind))
        } else {
            earlier
        }
    }
}

/// The entries of the list element `list`: one for each `li` element
/// among its children.
pub open spec fn list_entries(doc: Seq<NodeView>, list: int, kind: ListKind) -> Seq<Seq<char>> {
    item_texts(doc, element_children(doc, list), kind)
}

/// Whether node `i` is a match for `kind`: a candidate with a list among
/// its children.
pub open spec fn is_match(doc: Seq<NodeView>, i: int, kind: ListKind) -> bool {
    is_candidate(doc[i], kind) && list_child(doc, i) is Some
}

/// The list of the last match for `kind` among the first `upto` nodes.
pub open spec fn last_list(doc: Seq<NodeView>, kind: ListKind, upto: int) -> Option<int>
    decreases upto,
{
    if upto <= 0 {
        None
    } else if is_match(doc, upto - 1, kind) {
        list_child(doc, upto - 1)
    } else {
        last_list(doc, kind, upto - 1)
    }
}

/// The list of the given kind that a page holds: the entries of the last
/// match, or nothing if there is no match.
pub open spec fn extracted_list(doc: Seq<NodeView>, kind: ListKind) -> Seq<Seq<char>> {
    match last_list(doc, kind, doc.len() as int) {
        Some(list) => list_entries(doc, list, kind),
        None => Seq::empty(),
    }
}

/// The ingredients of a page.
pub open spec fn ingredients_of(doc: Seq<NodeView>) -> Seq<Seq<char>> {
    extracted_list(doc, ListKind::Ingredients)
}

/// The steps of a page.
pub open spec fn steps_of(doc: Seq<NodeView>) -> Seq<Seq<char>> {
    extracted_list(doc, ListKind::Steps)
}

/// Whether the node is an element whose class attribute holds `keyword`.
fn node_class_has(node: &DocNode, keyword: &str) -> (r: bool)
    ensures
        r == class_has(node@, keyword@),
{
    match &node.data {
        NodeData::Element(e) => match &e.class {
            Some(class) => text_contains_ignore_case(class.as_str(), keyword),
            None => false,
        },
        _ => false,
    }
}

/// Whether the node is a container that may hold the list of the given
/// kind.
pub fn node_is_candidate(node: &DocNode, kind: ListKind) -> (r: bool)
    ensures
        r == is_candidate(node@, kind),
{
    if !node.is_element_named("div") {
        return false;
    }
    match kind {
        ListKind::Ingredients => node_class_has(node, "ingredient"),
        ListKind::Steps => node_class_has(node, "step") || node_class_has(node, "instruction")
            || node_class_has(node, "prep"),
    }
}

/// The list of container `i`: the first of its children that is a list
/// element.
pub fn find_list_child(doc: &ParsedDocument, i: usize) -> (list: Option<usize>)
    ensures
        position(list) == list_child(doc@, i as int),
        list matches Some(l) ==> l < doc@.len(),
{
    let kids = doc.element_children(i);
    let ghost all = kids@.map_values(|k: usize| k as int);
    let mut n: usize = 0;
    proof {
        assert(all.skip(0) =~= all);
    }
    while n < kids.len()
        invariant
            n <= kids.len(),
            all == kids@.map_values(|k: usize| k as int),
            forall|k: int| 0 <= k < kids.len() ==> #[trigger] kids[k] < doc@.len(),
            list_child(doc@, i as int) == first_list_among(doc@, all.skip(n as int)),
        decreases kids.len() - n,
    {
        let k = kids[n];
        proof {
            assert(all.skip(n as int).first() == k as int);
            assert(all.skip(n as int).drop_first() =~= all.skip(n + 1));
            assert(doc@[k as int] == doc.nodes[k as int]@);
        }
        if doc.nodes[k].is_element_named("ul") || doc.nodes[k].is_element_named("ol") {
            return Some(k);
        }
        n += 1;
    }
    None
}

/// The entries of the list element `list`: the normalised text of each of
/// its `li` children, in document order.
pub fn collect_entries(doc: &ParsedDocument, list: usize, kind: ListKind) -> (entries: Vec<String>)
    ensures
        entries.deep_view() == list_entries(doc@, list as int, kind),
{
    let kids = doc.element_children(list);
    let ghost all = kids@.map_values(|k: usize| k as int);
    let mut entries: Vec<String> = Vec::new();
    let mut n: usize = 0;
    proof {
        assert(entries.deep_view() =~= Seq::<Seq<char>>::empty());
    }
    while n < kids.len()
        invariant
            n <= kids.len(),
            all == kids@.map_values(|k: usize| k as int),
            forall|k: int| 0 <= k < kids.len() ==> #[trigger] kids[k] < doc@.len(),
            all == element_children(doc@, list as int),
            entries.deep_view() == item_texts(doc@, all.take(n as int), kind),
        decreases kids.len() - n,
    {
        let k = kids[n];
        let ghost before = entries.deep_view();
        proof {
            assert(all.take(n + 1).drop_last() =~= all.take(n as int));
            assert(all.take(n + 1).last() == k as int);
            assert(doc@[k as int] == doc.nodes[k as int]@);
        }
        if doc.nodes[k].is_element_named("li") {
            let fragments = doc.text_fragments(k);
            let entry = match kind {
                ListKind::Ingredients => normalize_ingredient(&fragments),
                ListKind::Steps => normalize(&fragments),
            };
            entries.push(entry);
            proof {
                assert(entries.deep_view() =~= before.push(entry@));
            }
        }
        n += 1;
    }
    proof {
        assert(all.take(kids.len() as int) =~= all);
    }
    entries
}

/// The list of the last match for `kind` on the page.
pub fn find_last_list(doc: &ParsedDocument, kind: ListKind) -> (list: Option<usize>)
    ensures
        position(list) == last_list(doc@, kind, doc@.len() as int),
        list matches Some(l) ==> l < doc@.len(),
{
    let mut found: Option<usize> = None;
    let mut i: usize = 0;
    while i < doc.nodes.len()
        invariant
            i <= doc.nodes.len(),
            position(found) == last_list(doc@, kind, i as int),
            found matches Some(l) ==> l < doc@.len(),
        decreases doc.nodes.len() - i,
    {
        if node_is_candidate(&doc.nodes[i], kind) {
            let list = find_list_child(doc, i);
            if list.is_some() {
                found = list;
            }
        }
        i += 1;
    }
    found
}

/// The list of the given kind that the page holds.
pub fn extract_list(doc: &ParsedDocument, kind: ListKind) -> (entries: Vec<String>)
    ensures
        entries.deep_view() == extracted_list(doc@, kind),
{
    match find_last_list(doc, kind) {
        Some(list) => collect_entries(doc, list, kind),
        None => {
            let entries: Vec<String> = Vec::new();
            proof {
                assert(entries.deep_view() =~= Seq::<Seq<char>>::empty());
            }
            entries
        },
    }
}

/// Finds the ingredients and the steps of a page, in this order. A page
/// without a match for a list gives an empty list. The two lists are found
/// independently: one container may give both.
pub fn extract_lists(doc: &ParsedDocument) -> (lists: (Vec<String>, Vec<String>))
    ensures
        lists.0.deep_view() == ingredients_of(doc@),
        lists.1.deep_view() == steps_of(doc@),
{
    let ingredients = extract_list(doc, ListKind::Ingredients);
    let steps = extract_list(doc, ListKind::Steps);
    (ingredients, steps)
}

// ---------------------------------------------------------------------
// Lemmas
// ---------------------------------------------------------------------

/// An element's class attribute holds a keyword exactly when one of the
/// class names that the attribute lists holds it.
pub proof fn lemma_class_name_holds_keyword(node: NodeView, keyword: Seq<char>)
    requires
        is_word(keyword),
    ensures
        class_has(node, keyword) <==> (node.data matches NodeDataView::Element(e) && e.class
            is Some && some_name_contains(e.class->0, keyword)),
{
    if let NodeDataView::Element(e) = node.data {
        if let Some(class) = e.class {
            lemma_keyword_stands_in_a_name(class, keyword);
        }
    }
}

/// Without a match among the first `upto` nodes there is no list.
pub proof fn lemma_no_match_no_list(doc: Seq<NodeView>, kind: ListKind, upto: int)
    requires
        forall|i: int| 0 <= i < upto ==> !is_match(doc, i, kind),
    ensures
        last_list(doc, kind, upto) is None,
    decreases upto,
{
    if upto > 0 {
        lemma_no_match_no_list(doc, kind, upto - 1);
    }
}

/// A page without a candidate container gives empty ingredients and empty
/// steps.
pub proof fn lemma_no_container_empty_lists(doc: Seq<NodeView>)
    requires
        forall|i: int| 0 <= i < doc.len() ==> !is_candidate(#[trigger] doc[i], ListKind::Ingredients),
        forall|i: int| 0 <= i < doc.len() ==> !is_candidate(#[trigger] doc[i], ListKind::Steps),
    ensures
        ingredients_of(doc) == Seq::<Seq<char>>::empty(),
        steps_of(doc) == Seq::<Seq<char>>::empty(),
{
    lemma_no_match_no_list(doc, ListKind::Ingredients, doc.len() as int);
    lemma_no_match_no_list(doc, ListKind::Steps, doc.len() as int);
}

/// Nodes after the last match do not change the list that was found.
pub proof fn lemma_last_list_is_last_match(doc: Seq<NodeView>, kind: ListKind, last: int, upto: int)
    requires
        0 <= last < upto,
        is_match(doc, last, kind),
        forall|j: int| last < j < upto ==> !is_match(doc, j, kind),
    ensures
        last_list(doc, kind, upto) == list_child(doc, last),
    decreases upto,
{
    if upto - 1 > last {
        lemma_last_list_is_last_match(doc, kind, last, upto - 1);
    }
}

/// Last match wins: the list equals the entries of the last match alone,
/// whatever the matches before it hold.
pub proof fn lemma_last_match_wins(doc: Seq<NodeView>, kind: ListKind, last: int)
    requires
        0 <= last < doc.len(),
        is_match(doc, last, kind),
        forall|j: int| last < j < doc.len() ==> !is_match(doc, j, kind),
    ensures
        extracted_list(doc, kind) == list_entries(doc, list_child(doc, last)->0, kind),
{
    lemma_last_list_is_last_match(doc, kind, last, doc.len() as int);
}

} // verus!
