//! Trusted declarations for the outside crates the extraction engine calls:
//! the regex engine for pattern matching and replacement, and the HTML
//! parser for turning page text into the arena document model.  Everything
//! the verified code learns about those calls is stated here.

use vstd::prelude::*;

verus! {

/// The first two capture groups of the leftmost match of `pattern` in
/// `text`; `None` where the pattern does not compile, does not match, or
/// where one of the groups did not capture.
pub uninterp spec fn captures2_of(pattern: Seq<char>, text: Seq<char>) -> Option<
    (Seq<char>, Seq<char>),
>;

/// Relies on `regex::Regex::captures`: the capture groups of the leftmost
/// match are a pure function of pattern and text.  Yields the text of groups
/// one and two; `None` where the pattern does not compile, has no match, or
/// where a group did not capture.
#[verifier::external_body]
pub(crate) fn regex_captures_two(pattern: &str, text: &str) -> (r: Option<(String, String)>)
    ensures
        match r {
            Some(g) => captures2_of(pattern@, text@) == Some((g.0@, g.1@)),
            None => captures2_of(pattern@, text@) is None,
        },
{
    match regex::Regex::new(pattern) {
        Ok(re) => match re.captures(text) {
            Some(c) => match (c.get(1), c.get(2)) {
                (Some(a), Some(b)) => Some((a.as_str().to_string(), b.as_str().to_string())),
                _ => None,
            },
            None => None,
        },
        Err(_) => None,
    }
}

/// The text after replacing every non-overlapping match of `pattern` in
/// `text` by `rep`, with `$n` group references expanded; `text` itself where
/// the pattern does not compile.
pub uninterp spec fn replaced_of(pattern: Seq<char>, text: Seq<char>, rep: Seq<char>) -> Seq<char>;

/// Relies on `regex::Regex::replace_all`: replaces every non-overlapping
/// match of the pattern, expanding `$n` references in the replacement; a
/// pure function of its three arguments.  On a pattern that does not
/// compile, the text is returned unchanged.
#[verifier::external_body]
pub(crate) fn regex_replace_all(pattern: &str, text: &str, rep: &str) -> (r: String)
    ensures
        r@ == replaced_of(pattern@, text@, rep@),
{
    match regex::Regex::new(pattern) {
        Ok(re) => re.replace_all(text, rep).into_owned(),
        Err(_) => text.to_string(),
    }
}

#[verifier::external_type_specification]
#[verifier::external_body]
pub struct ExHtml(scraper::Html);

#[verifier::external_type_specification]
#[verifier::external_body]
pub struct ExNodeId(ego_tree::NodeId);

/// The arena model of the page text: the document's element nodes in
/// pre-order, with their links, tag names, attributes and inner content.
/// Parsing is a pure function of the text, so the model is too: html5ever
/// recovers from malformed markup deterministically, and scraper keeps each
/// element's attributes in a name-sorted vector, never in a per-process
/// seeded structure.
pub uninterp spec fn dom_of(text: Seq<char>) -> crate::html::dom::Document;

/// Relies on `scraper::Html::parse_document`: parses HTML text into a node
/// tree without failing, deterministically.  The arena is then flattened
/// out of that tree by the verified `build_arena`, which reads it only
/// through the deterministic accessors below, so the whole step is a
/// function of the text alone, named `dom_of`.  Nothing about the arena's
/// shape is assumed: callers validate it with the verified
/// `check_document`.
#[verifier::external_body]
pub(crate) fn parse_document_ext(text: &str) -> (r: crate::html::dom::Document)
    ensures
        r == dom_of(text@),
{
    let html = scraper::Html::parse_document(text);
    crate::html::build_arena(&html)
}

/// Relies on `ego_tree::Tree::root` and `ego_tree::NodeRef::id`: the
/// identifier of the tree's root node.
#[verifier::external_body]
pub(crate) fn doc_root_id(doc: &scraper::Html) -> (r: ego_tree::NodeId) {
    doc.tree.root().id()
}

/// Relies on `ego_tree::NodeRef::children`: the identifiers of the node's
/// children, in document order; empty for an identifier the tree does not
/// know.
#[verifier::external_body]
pub(crate) fn child_ids(doc: &scraper::Html, id: ego_tree::NodeId) -> (r: Vec<ego_tree::NodeId>) {
    match doc.tree.get(id) {
        Some(n) => n.children().map(|c| c.id()).collect(),
        None => Vec::new(),
    }
}

/// Relies on `scraper::ElementRef::wrap` and `scraper::node::Element`'s
/// accessors: the tag name and the attribute pairs of the node, where it is
/// an element; `None` for text, comments and other non-element nodes.
#[verifier::external_body]
pub(crate) fn element_info(doc: &scraper::Html, id: ego_tree::NodeId) -> (r: Option<
    (String, Vec<(String, String)>),
>) {
    let node = doc.tree.get(id)?;
    let el = scraper::ElementRef::wrap(node)?;
    let name = el.value().name().to_string();
    let attrs = el.value().attrs().map(|(k, v)| (k.to_string(), v.to_string())).collect();
    Some((name, attrs))
}

/// Relies on `scraper::ElementRef::inner_html`: the serialized content
/// between the element's opening and closing tags.
#[verifier::external_body]
pub(crate) fn element_inner_html(doc: &scraper::Html, id: ego_tree::NodeId) -> (r: Option<String>) {
    let node = doc.tree.get(id)?;
    Some(scraper::ElementRef::wrap(node)?.inner_html())
}

} // verus!
