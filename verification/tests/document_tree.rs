use recipe_scraper::document::{DocNode, Element, NodeData, ParsedDocument};

fn el(depth: usize, name: &str) -> DocNode {
    DocNode::element(depth, Element::new(name, None, None, None))
}

/// root > (a > (b > "x", "y"), c, "z", d > e)
fn sample() -> ParsedDocument {
    ParsedDocument::from_nodes(vec![
        DocNode::other(0),
        el(1, "a"),
        el(2, "b"),
        DocNode::text(3, "x"),
        DocNode::text(2, "y"),
        el(1, "c"),
        DocNode::text(1, "z"),
        el(1, "d"),
        el(2, "e"),
    ])
}

#[test]
fn constructors_build_the_nodes() {
    let e = Element::new("meta", Some("k"), Some("og:title"), Some("T"));
    assert_eq!(e.name, "meta");
    assert_eq!(e.class.as_deref(), Some("k"));
    assert_eq!(e.property.as_deref(), Some("og:title"));
    assert_eq!(e.content.as_deref(), Some("T"));
    let n = DocNode::element(3, e.clone());
    assert_eq!(n.depth, 3);
    assert_eq!(n.data, NodeData::Element(e));
    assert_eq!(DocNode::text(2, "hi"), DocNode { depth: 2, data: NodeData::Text("hi".to_string()) });
    assert_eq!(DocNode::other(0), DocNode { depth: 0, data: NodeData::Other });
}

#[test]
fn element_names_are_compared_exactly() {
    let n = el(1, "div");
    assert!(n.is_element_named("div"));
    assert!(!n.is_element_named("DIV"));
    assert!(!n.is_element_named("di"));
    assert!(!DocNode::text(1, "div").is_element_named("div"));
    assert!(!DocNode::other(1).is_element_named("div"));
}

#[test]
fn subtree_end_is_just_past_the_descendants() {
    let doc = sample();
    assert_eq!(doc.len(), 9);
    assert_eq!(doc.subtree_end(0), 9);
    assert_eq!(doc.subtree_end(1), 5);
    assert_eq!(doc.subtree_end(2), 4);
    assert_eq!(doc.subtree_end(3), 4);
    assert_eq!(doc.subtree_end(5), 6);
    assert_eq!(doc.subtree_end(7), 9);
    assert_eq!(doc.subtree_end(8), 9);
    assert_eq!(doc.subtree_end(9), 9);
    assert_eq!(doc.subtree_end(100), 9);
}

#[test]
fn children_are_the_nodes_one_level_below() {
    let doc = sample();
    assert_eq!(doc.children(0), vec![1, 5, 6, 7]);
    assert_eq!(doc.children(1), vec![2, 4]);
    assert_eq!(doc.children(2), vec![3]);
    assert_eq!(doc.children(3), Vec::<usize>::new());
    assert_eq!(doc.children(7), vec![8]);
    assert_eq!(doc.children(9), Vec::<usize>::new());
}

#[test]
fn element_children_leave_out_text_and_other_nodes() {
    let doc = sample();
    assert_eq!(doc.element_children(0), vec![1, 5, 7]);
    assert_eq!(doc.element_children(1), vec![2]);
    assert_eq!(doc.element_children(2), Vec::<usize>::new());
    assert_eq!(doc.element_children(7), vec![8]);
    assert_eq!(doc.element_children(9), Vec::<usize>::new());
    let with_comment = ParsedDocument::from_nodes(vec![el(0, "ul"), DocNode::other(1), el(1, "li")]);
    assert_eq!(with_comment.children(0), vec![1, 2]);
    assert_eq!(with_comment.element_children(0), vec![2]);
}

#[test]
fn next_sibling_is_the_node_after_the_subtree_at_the_same_depth() {
    let doc = sample();
    assert_eq!(doc.next_sibling(0), None);
    assert_eq!(doc.next_sibling(1), Some(5));
    assert_eq!(doc.next_sibling(2), Some(4));
    assert_eq!(doc.next_sibling(3), None);
    assert_eq!(doc.next_sibling(4), None);
    assert_eq!(doc.next_sibling(5), Some(6));
    assert_eq!(doc.next_sibling(6), Some(7));
    assert_eq!(doc.next_sibling(7), None);
    assert_eq!(doc.next_sibling(8), None);
    assert_eq!(doc.next_sibling(9), None);
}

#[test]
fn text_fragments_are_the_texts_of_the_descendants_in_order() {
    let doc = sample();
    assert_eq!(doc.text_fragments(0), vec!["x", "y", "z"]);
    assert_eq!(doc.text_fragments(1), vec!["x", "y"]);
    assert_eq!(doc.text_fragments(2), vec!["x"]);
    assert_eq!(doc.text_fragments(3), Vec::<String>::new());
    assert_eq!(doc.text_fragments(7), Vec::<String>::new());
    assert_eq!(doc.text_fragments(42), Vec::<String>::new());
}

#[test]
fn an_empty_document_has_no_nodes() {
    let doc = ParsedDocument::from_nodes(vec![]);
    assert_eq!(doc.len(), 0);
    assert_eq!(doc.subtree_end(0), 0);
    assert_eq!(doc.children(0), Vec::<usize>::new());
    assert_eq!(doc.next_sibling(0), None);
}

#[test]
fn parse_lists_the_tree_in_document_order() {
    let doc = ParsedDocument::parse("<p class=\"a b\">Hi <b>there</b></p>");
    let expected = ParsedDocument::from_nodes(vec![
        DocNode::other(0),
        el(1, "html"),
        el(2, "head"),
        el(2, "body"),
        DocNode::element(3, Element::new("p", Some("a b"), None, None)),
        DocNode::text(4, "Hi "),
        el(4, "b"),
        DocNode::text(5, "there"),
    ]);
    assert_eq!(doc, expected);
}

#[test]
fn parse_keeps_the_attributes_that_the_extractors_read() {
    let doc = ParsedDocument::parse(
        "<html><head><meta property=\"og:title\" content=\"Bean Soup\" name=\"x\"></head></html>",
    );
    assert_eq!(
        doc.nodes[3],
        DocNode::element(3, Element::new("meta", None, Some("og:title"), Some("Bean Soup")))
    );
}

#[test]
fn parse_marks_comments_and_doctypes_as_other() {
    let doc = ParsedDocument::parse("<!DOCTYPE html><!-- c --><html></html>");
    assert_eq!(doc.nodes[0], DocNode::other(0));
    assert_eq!(doc.nodes[1], DocNode::other(1));
    assert_eq!(doc.nodes[2], DocNode::other(1));
    assert!(doc.nodes[3].is_element_named("html"));
}

#[test]
fn parse_tolerates_garbled_markup() {
    let doc = ParsedDocument::parse("<div><span>unclosed <b>text</div></i> tail");
    assert!(doc.len() > 0);
    assert_eq!(doc.text_fragments(0), vec!["unclosed ", "text", " tail"]);
    let empty = ParsedDocument::parse("");
    assert_eq!(empty.text_fragments(0), Vec::<String>::new());
}
