//! Tests for the locator, the tree navigator and the extraction query.

use crypto_scrapper::html::{
    check_document, get_inner_html_from_element, locate, navigate_relation, parse_document,
    ElementRelation, ErrorKind,
};

const PAGE: &str = "<html><body><div class=\"priceValue\">$1.21</div>\
<ul id=\"list\"><li>alpha</li><li>beta</li><li>gamma</li></ul></body></html>";

#[test]
fn test_parse_document_is_well_formed() {
    let doc = parse_document(PAGE).expect("the page should be modelled");
    assert!(check_document(&doc));
    assert!(doc.nodes.len() >= 7);
}

#[test]
fn test_locate_resolves_price_value_div() {
    let doc = parse_document(PAGE).expect("the page should be modelled");
    let anchor =
        locate("(div) (class=\"priceValue\")", PAGE, &doc).expect("the anchor should resolve");
    assert_eq!(doc.nodes[anchor].tag, String::from("div"));
    assert_eq!(doc.nodes[anchor].inner, String::from("$1.21"));
}

#[test]
fn test_locate_matches_tag_names_case_insensitively() {
    // Upper-case markup: the captured tag is `DIV`, while the parser stores
    // the element's name lower-case; the comparison lowers the capture, as
    // a selector would.
    let page = "<DIV class=\"priceValue\">$1.21</DIV>";
    let doc = parse_document(page).expect("the page should be modelled");
    let anchor =
        locate("(DIV) (class=\"priceValue\")", page, &doc).expect("the anchor should resolve");
    assert_eq!(doc.nodes[anchor].tag, String::from("div"));
    assert_eq!(doc.nodes[anchor].inner, String::from("$1.21"));
}

#[test]
fn test_locate_reports_pattern_not_found() {
    let doc = parse_document(PAGE).expect("the page should be modelled");
    let err = locate("(table) (class=\"nothing\")", PAGE, &doc).unwrap_err();
    assert_eq!(err.kind, ErrorKind::PatternNotFound);
}

#[test]
fn test_locate_reports_element_not_found() {
    // The pattern matches raw text that no element carries: the selector
    // derived from it fits nothing in the parsed page.
    let page = "<html><body><p>div class=\"ghost\" here</p></body></html>";
    let doc = parse_document(page).expect("the page should be modelled");
    let err = locate("(div) (class=\"ghost\")", page, &doc).unwrap_err();
    assert_eq!(err.kind, ErrorKind::ElementNotFound);
}

#[test]
fn test_navigate_is_deterministic() {
    let doc = parse_document(PAGE).expect("the page should be modelled");
    let anchor = locate("(ul) (id=\"list\")", PAGE, &doc).expect("the list should resolve");
    let path = vec![ElementRelation::Child(1)];
    let first = navigate_relation(&doc, anchor, &path).expect("the child should exist");
    let second = navigate_relation(&doc, anchor, &path).expect("the child should exist");
    assert_eq!(first, second);
    assert_eq!(doc.nodes[first].inner, String::from("beta"));
}

#[test]
fn test_navigate_child_negative_returns_last_child() {
    let doc = parse_document(PAGE).expect("the page should be modelled");
    let anchor = locate("(ul) (id=\"list\")", PAGE, &doc).expect("the list should resolve");
    let last = navigate_relation(&doc, anchor, &vec![ElementRelation::Child(-1)])
        .expect("the last child should exist");
    assert_eq!(doc.nodes[last].inner, String::from("gamma"));
}

#[test]
fn test_navigate_child_on_childless_element_fails() {
    let doc = parse_document(PAGE).expect("the page should be modelled");
    let anchor =
        locate("(div) (class=\"priceValue\")", PAGE, &doc).expect("the anchor should resolve");
    let err = navigate_relation(&doc, anchor, &vec![ElementRelation::Child(-1)]).unwrap_err();
    assert_eq!(err.kind, ErrorKind::TraversalOutOfBounds);
}

#[test]
fn test_navigate_sibling_steps_forward() {
    let doc = parse_document(PAGE).expect("the page should be modelled");
    let anchor = locate("(ul) (id=\"list\")", PAGE, &doc).expect("the list should resolve");
    let first = navigate_relation(&doc, anchor, &vec![ElementRelation::Child(0)])
        .expect("the first child should exist");
    let stay = navigate_relation(&doc, first, &vec![ElementRelation::Sibling(0)])
        .expect("a zero step stays put");
    assert_eq!(stay, first);
    let third = navigate_relation(&doc, first, &vec![ElementRelation::Sibling(2)])
        .expect("two siblings on");
    assert_eq!(doc.nodes[third].inner, String::from("gamma"));
    let err = navigate_relation(&doc, first, &vec![ElementRelation::Sibling(3)]).unwrap_err();
    assert_eq!(err.kind, ErrorKind::TraversalOutOfBounds);
}

#[test]
fn test_navigate_parent_of_root_fails() {
    let doc = parse_document(PAGE).expect("the page should be modelled");
    let err = navigate_relation(&doc, 0, &vec![ElementRelation::Parent]).unwrap_err();
    assert_eq!(err.kind, ErrorKind::TraversalOutOfBounds);
}

#[test]
fn test_extraction_query_shares_one_anchor() {
    let doc_texts = get_inner_html_from_element(
        "(ul) (id=\"list\")",
        PAGE,
        vec![
            vec![ElementRelation::Child(0)],
            vec![ElementRelation::Child(1)],
            vec![ElementRelation::Child(-1)],
        ],
    )
    .expect("all three paths should resolve");
    assert_eq!(doc_texts.len(), 3);
    assert_eq!(doc_texts[0], String::from("alpha"));
    assert_eq!(doc_texts[1], String::from("beta"));
    assert_eq!(doc_texts[2], String::from("gamma"));
}

#[test]
fn test_extraction_query_fails_atomically() {
    let r = get_inner_html_from_element(
        "(ul) (id=\"list\")",
        PAGE,
        vec![
            vec![ElementRelation::Child(0)],
            vec![ElementRelation::Child(7)],
        ],
    );
    let err = r.unwrap_err();
    assert_eq!(err.kind, ErrorKind::TraversalOutOfBounds);
}
