//! The metadata extractor: reads the `meta` elements of a page.

use vstd::prelude::*;
use crate::document::{NodeData, NodeDataView, NodeView, ParsedDocument};
use crate::draft::{Metadata, MetadataView};
use crate::text::text_equals;

verus! {

/// What a node says about `property`: the content of a `meta` element that
/// carries this property and a non-empty content; nothing otherwise.
pub open spec fn meta_content(node: NodeView, property: Seq<char>) -> Option<Seq<char>> {
    match node.data {
        NodeDataView::Element(e) => {
            if e.name == "meta"@ && e.property == Some(property) && e.content is Some
                && e.content->0.len() > 0 {
                e.content
            } else {
                None
            }
        },
        _ => None,
    }
}

/// What the nodes before position `upto` say about `property`: the last of
/// them that says something decides.
pub open spec fn last_meta_content(doc: Seq<NodeView>, property: Seq<char>, upto: int) -> Option<
    Seq<char>,
>
    decreases upto,
{
    if upto <= 0 {
        None
    } else {
        match meta_content(doc[upto - 1], property) {
            Some(c) => Some(c),
            None => last_meta_content(doc, property, upto - 1),
        }
    }
}

/// The metadata that the first `upto` nodes of a page give.
pub open spec fn metadata_upto(doc: Seq<NodeView>, upto: int) -> MetadataView {
    MetadataView {
        title: last_meta_content(doc, "og:title"@, upto),
        header: last_meta_content(doc, "og:description"@, upto),
        image_url: last_meta_content(doc, "og:image"@, upto),
        image_height: last_meta_content(doc, "og:image:height"@, upto),
        image_width: last_meta_content(doc, "og:image:width"@, upto),
    }
}

/// The metadata of a page.
pub open spec fn metadata_of(doc: Seq<NodeView>) -> MetadataView {
    metadata_upto(doc, doc.len() as int)
}

/// Reads the metadata of a page. Each field takes the content of the last
/// `meta` element in document order that carries its property and a
/// non-empty content; a field without such an element stays unset.
pub fn extract_metadata(doc: &ParsedDocument) -> (metadata: Metadata)
    ensures
        metadata@ == metadata_of(doc@),
{
    let mut metadata = Metadata::empty();
    let mut i: usize = 0;
    while i < doc.nodes.len()
        invariant
            i <= doc.nodes.len(),
            metadata@ == metadata_upto(doc@, i as int),
        decreases doc.nodes.len() - i,
    {
        let ghost node = doc@[i as int];
        match &doc.nodes[i].data {
            NodeData::Element(e) => {
                if text_equals(e.name.as_str(), "meta") {
                    match (&e.property, &e.content) {
                        (Some(property), Some(content)) => {
                            if !content.as_str().is_empty() {
                                let p = property.as_str();
                                if text_equals(p, "og:title") {
                                    metadata.title = Some(content.clone());
                                } else if text_equals(p, "og:description") {
                                    metadata.header = Some(content.clone());
                                } else if text_equals(p, "og:image") {
                                    metadata.image_url = Some(content.clone());
                                } else if text_equals(p, "og:image:height") {
                                    metadata.image_height = Some(content.clone());
                                } else if text_equals(p, "og:image:width") {
                                    metadata.image_width = Some(content.clone());
                                }
                            }
                        },
                        _ => {},
                    }
                }
            },
            _ => {},
        }
        proof {
            lemma_property_names_differ();
        }
        i += 1;
    }
    metadata
}

/// Last match wins: the content of the last `meta` element that says
/// something about a property decides, whatever stands before it.
pub proof fn lemma_last_meta_element_wins(
    doc: Seq<NodeView>,
    property: Seq<char>,
    last: int,
    upto: int,
)
    requires
        0 <= last < upto,
        meta_content(doc[last], property) is Some,
        forall|j: int| last < j < upto ==> meta_content(doc[j], property) is None,
    ensures
        last_meta_content(doc, property, upto) == meta_content(doc[last], property),
    decreases upto,
{
    if upto - 1 > last {
        lemma_last_meta_element_wins(doc, property, last, upto - 1);
    }
}

/// A property that no `meta` element says anything about stays unset.
pub proof fn lemma_no_meta_element_no_value(doc: Seq<NodeView>, property: Seq<char>, upto: int)
    requires
        forall|j: int| 0 <= j < upto ==> meta_content(doc[j], property) is None,
    ensures
        last_meta_content(doc, property, upto) is None,
    decreases upto,
{
    if upto > 0 {
        lemma_no_meta_element_no_value(doc, property, upto - 1);
    }
}

/// The five property names are pairwise different.
proof fn lemma_property_names_differ()
    ensures
        "og:title"@ != "og:description"@,
        "og:title"@ != "og:image"@,
        "og:title"@ != "og:image:height"@,
        "og:title"@ != "og:image:width"@,
        "og:description"@ != "og:image"@,
        "og:description"@ != "og:image:height"@,
        "og:description"@ != "og:image:width"@,
        "og:image"@ != "og:image:height"@,
        "og:image"@ != "og:image:width"@,
        "og:image:height"@ != "og:image:width"@,
{
    reveal_strlit("og:title");
    reveal_strlit("og:description");
    reveal_strlit("og:image");
    reveal_strlit("og:image:height");
    reveal_strlit("og:image:width");
    assert("og:title"@.len() == 8);
    assert("og:description"@.len() == 14);
    assert("og:image"@.len() == 8);
    assert("og:image:height"@.len() == 15);
    assert("og:image:width"@.len() == 14);
    assert("og:title"@[3] == 't');
    assert("og:image"@[3] == 'i');
    assert("og:description"@[3] == 'd');
    assert("og:image:width"@[3] == 'i');
}

} // verus!
