//! The timings extractor: finds the prep, cook and total time of a recipe.
//!
//! A label element is a `span` or `div` element whose own text, trimmed, is
//! one of the three labels, with or without a colon after it, whatever the
//! case of its letters. The value of a label stands in the element that
//! follows the label element as its next sibling.

use vstd::prelude::*;
use crate::document::{
    NodeData, NodeDataView, NodeView, ParsedDocument, is_element_named, next_sibling, position,
    text_fragments,
};
use crate::draft::{Timings, TimingsView};
use crate::text::{
    chars_eq_ignore_case, chars_of, dedup_join, dedup_joined, eq_ignore_case, join_fragments,
    joined, trim_chars, trimmed,
};

verus! {

/// The three timings.
#[derive(Clone, Copy, Debug, PartialEq, Eq)]
pub enum TimeLabel {
    Prep,
    Cook,
    Total,
}

/// The text of a label.
pub open spec fn label_text(label: TimeLabel) -> Seq<char> {
    match label {
        TimeLabel::Prep => "prep time"@,
        TimeLabel::Cook => "cook time"@,
        TimeLabel::Total => "total time"@,
    }
}

/// Whether `text`, trimmed, is the label, with or without a colon after
/// it, up to ASCII case.
pub open spec fn label_matches(text: Seq<char>, label: Seq<char>) -> bool {
    eq_ignore_case(trimmed(text), label) || eq_ignore_case(trimmed(text), label.push(':'))
}

/// Whether the node can be a label element: a `span` or a `div`.
pub open spec fn is_label_carrier(node: NodeView) -> bool {
    is_element_named(node, "span"@) || is_element_named(node, "div"@)
}

/// Whether node `i` is a label element for `label`.
pub open spec fn is_label_element(doc: Seq<NodeView>, i: int, label: TimeLabel) -> bool {
    is_label_carrier(doc[i]) && label_matches(joined(text_fragments(doc, i)), label_text(label))
}

/// The value that stands beside node `i`: if the next sibling of the node
/// is an element, its text fragments, trimmed, without repetitions and
/// joined with single spaces. There is no value if the node has no next
/// sibling, if the sibling is no element, or if that text is empty.
pub open spec fn sibling_time(doc: Seq<NodeView>, i: int) -> Option<Seq<char>> {
    match next_sibling(doc, i) {
        Some(k) => {
            let value = dedup_joined(text_fragments(doc, k));
            if doc[k].data is Element && value.len() > 0 {
                Some(value)
            } else {
                None
            }
        },
        None => None,
    }
}

/// Whether node `i` gives a value for `label`.
pub open spec fn gives_time(doc: Seq<NodeView>, i: int, label: TimeLabel) -> bool {
    is_label_element(doc, i, label) && sibling_time(doc, i) is Some
}

/// The value for `label` that the first `upto` nodes give: that of the
/// last node among them that gives one.
pub open spec fn last_time(doc: Seq<NodeView>, label: TimeLabel, upto: int) -> Option<Seq<char>>
    decreases upto,
{
    if upto <= 0 {
        None
    } else if gives_time(doc, upto - 1, label) {
        sibling_time(doc, upto - 1)
    } else {
        last_time(doc, label, upto - 1)
    }
}

/// The timings that the first `upto` nodes of a page give.
pub open spec fn timings_upto(doc: Seq<NodeView>, upto: int) -> TimingsView {
    TimingsView {
        prep_time: last_time(doc, TimeLabel::Prep, upto),
        cook_time: last_time(doc, TimeLabel::Cook, upto),
        total_time: last_time(doc, TimeLabel::Total, upto),
    }
}

/// The timings of a page.
pub open spec fn timings_of(doc: Seq<NodeView>) -> TimingsView {
    timings_upto(doc, doc.len() as int)
}

/// Reads the value that stands beside the label element `element`: the
/// text of its next sibling, without repeated fragments. Returns `None`
/// where there is no sibling element or no text in it.
pub fn scrape_recipe_time(doc: &ParsedDocument, element: usize) -> (time: Option<String>)
    ensures
        time.deep_view() == sibling_time(doc@, element as int),
{
    match doc.next_sibling(element) {
        Some(k) => {
            proof {
                assert(doc@[k as int] == doc.nodes[k as int]@);
            }
            match &doc.nodes[k].data {
                NodeData::Element(_) => {
                    let fragments = doc.text_fragments(k);
                    let value = dedup_join(&fragments);
                    if value.as_str().is_empty() {
                        None
                    } else {
                        Some(value)
                    }
                },
                _ => None,
            }
        },
        None => None,
    }
}

/// Whether the trimmed text is the label, with or without a colon.
fn trimmed_matches(text: &Vec<char>, label: &str) -> (r: bool)
    ensures
        r == (eq_ignore_case(text@, label@) || eq_ignore_case(text@, label@.push(':'))),
{
    let mut expected = chars_of(label);
    if chars_eq_ignore_case(text, &expected) {
        return true;
    }
    expected.push(':');
    chars_eq_ignore_case(text, &expected)
}

/// Finds the timings of a page. Each timing takes the value beside the
/// last label element in document order that has one; a timing without
/// such an element stays unset.
pub fn extract_timings(doc: &ParsedDocument) -> (timings: Timings)
    ensures
        timings@ == timings_of(doc@),
{
    let mut timings = Timings::empty();
    let mut i: usize = 0;
    while i < doc.nodes.len()
        invariant
            i <= doc.nodes.len(),
            timings@ == timings_upto(doc@, i as int),
        decreases doc.nodes.len() - i,
    {
        proof {
            assert(doc@[i as int] == doc.nodes[i as int]@);
        }
        if doc.nodes[i].is_element_named("span") || doc.nodes[i].is_element_named("div") {
            let fragments = doc.text_fragments(i);
            let whole = join_fragments(&fragments);
            let own_text = trim_chars(&whole);
            let is_prep = trimmed_matches(&own_text, "prep time");
            let is_cook = trimmed_matches(&own_text, "cook time");
            let is_total = trimmed_matches(&own_text, "total time");
            if is_prep || is_cook || is_total {
                let value = scrape_recipe_time(doc, i);
                if value.is_some() {
                    if is_prep {
                        timings.prep_time = value.clone();
                    }
                    if is_cook {
                        timings.cook_time = value.clone();
                    }
                    if is_total {
                        timings.total_time = value;
                    }
                }
            }
        }
        i += 1;
    }
    timings
}

// ---------------------------------------------------------------------
// Lemmas
// ---------------------------------------------------------------------

/// Nodes after the last one that gives a value do not change the value.
pub proof fn lemma_last_time_is_last_value(
    doc: Seq<NodeView>,
    label: TimeLabel,
    last: int,
    upto: int,
)
    requires
        0 <= last < upto,
        gives_time(doc, last, label),
        forall|j: int| last < j < upto ==> !gives_time(doc, j, label),
    ensures
        last_time(doc, label, upto) == sibling_time(doc, last),
    decreases upto,
{
    if upto - 1 > last {
        lemma_last_time_is_last_value(doc, label, last, upto - 1);
    }
}

/// Without a node that gives a value the timing is unset.
pub proof fn lemma_no_label_no_time(doc: Seq<NodeView>, label: TimeLabel, upto: int)
    requires
        forall|j: int| 0 <= j < upto ==> !gives_time(doc, j, label),
    ensures
        last_time(doc, label, upto) is None,
    decreases upto,
{
    if upto > 0 {
        lemma_no_label_no_time(doc, label, upto - 1);
    }
}

/// A timing is never the empty string: it is unset or holds text.
pub proof fn lemma_time_is_never_empty(doc: Seq<NodeView>, label: TimeLabel, upto: int)
    ensures
        last_time(doc, label, upto) matches Some(value) ==> value.len() > 0,
    decreases upto,
{
    if upto > 0 {
        lemma_time_is_never_empty(doc, label, upto - 1);
    }
}

} // verus!
