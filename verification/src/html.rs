//! Locating elements in an HTML document, walking its tree, and caching pages.

pub mod cache;
pub mod dom;
pub mod ext;

pub use cache::{get_or_fetch, Cache, CacheEntry, HtmlParser};
pub use dom::{check_document, navigate_relation, Document, DomNode};

use vstd::prelude::*;

verus! {

/// The failure classes that extraction can report.
#[derive(Clone, Copy, Debug, PartialEq, Eq, Structural)]
pub enum ErrorKind {
    /// The locator pattern had no match in the raw document text.
    PatternNotFound,
    /// The pattern matched text, but no element satisfies the derived selector.
    ElementNotFound,
    /// A relation path walked past a root or past the end of a child or
    /// sibling chain.
    TraversalOutOfBounds,
    /// A network- or renderer-level failure while retrieving a page.
    FetchFailure,
    /// Malformed input where structured content was expected, such as text
    /// that does not parse as a number.
    ConfigurationInvalid,
}

/// An extraction failure: a class and a human-readable description.
#[derive(Clone, Debug)]
pub struct ParseError {
    pub kind: ErrorKind,
    pub details: String,
}

impl ParseError {
    /// A generic error carrying only a description.
    pub fn new(details: String) -> (r: ParseError)
        ensures
            r.kind == ErrorKind::ConfigurationInvalid,
            r.details == details,
    {
        ParseError { kind: ErrorKind::ConfigurationInvalid, details }
    }

    /// An error of a given class.
    pub fn with_kind(kind: ErrorKind, details: String) -> (r: ParseError)
        ensures
            r.kind == kind,
            r.details == details,
    {
        ParseError { kind, details }
    }

    /// The description, for display by a caller.
    pub fn message(&self) -> (r: String)
        ensures
            r == self.details,
    {
        self.details.clone()
    }
}

/// The first position of `=` in `a`, with no `=` before it.
pub open spec fn spec_is_first_eq(a: Seq<char>, e: int) -> bool {
    0 <= e < a.len() && a[e] == '=' && forall|j: int| 0 <= j < e ==> a[j] != '='
}

/// Splits an attribute predicate of the shape `key="value"` into the key and
/// the unquoted value; `None` where the text does not have that shape.
pub open spec fn spec_parse_predicate(a: Seq<char>) -> Option<(Seq<char>, Seq<char>)> {
    if exists|e: int| spec_is_first_eq(a, e) {
        let e = choose|e: int| spec_is_first_eq(a, e);
        let key = a.take(e);
        let rest = a.skip(e + 1);
        if key.len() > 0 && rest.len() >= 2 && rest[0] == '"' && rest[rest.len() - 1] == '"' {
            Some((key, rest.subrange(1, rest.len() - 1)))
        } else {
            None
        }
    } else {
        None
    }
}

/// Copies `a[from..to]`.
fn copy_range(a: &Vec<char>, from: usize, to: usize) -> (r: Vec<char>)
    requires
        from <= to <= a@.len(),
    ensures
        r@ == a@.subrange(from as int, to as int),
{
    let mut out: Vec<char> = Vec::new();
    let mut i: usize = from;
    while i < to
        invariant
            from <= i <= to <= a@.len(),
            out@ == a@.subrange(from as int, i as int),
        decreases to - i,
    {
        assert(a@.subrange(from as int, i + 1) =~= a@.subrange(from as int, i as int) + seq![
            a@[i as int],
        ]);
        out.push(a[i]);
        i += 1;
    }
    out
}

/// Splits `key="value"` into key and unquoted value, as
/// `spec_parse_predicate` lays down.
fn parse_predicate(a: &Vec<char>) -> (r: Option<(Vec<char>, Vec<char>)>)
    ensures
        match r {
            Some(kv) => spec_parse_predicate(a@) == Some((kv.0@, kv.1@)),
            None => spec_parse_predicate(a@) is None,
        },
{
    let n = a.len();
    let mut epos: Option<usize> = None;
    let mut i: usize = 0;
    while i < n
        invariant
            n == a@.len(),
            i <= n,
            match epos {
                Some(e) => spec_is_first_eq(a@, e as int) && e < n,
                None => forall|j: int| 0 <= j < i ==> a@[j] != '=',
            },
        decreases n - i,
    {
        if epos.is_none() && a[i] == '=' {
            epos = Some(i);
        }
        i += 1;
    }
    match epos {
        None => {
            assert(forall|e: int| !spec_is_first_eq(a@, e));
            None
        },
        Some(e) => {
            proof {
                let ec = choose|x: int| spec_is_first_eq(a@, x);
                assert(spec_is_first_eq(a@, e as int));
                if ec < e as int {
                    assert(a@[ec] != '=');
                } else if ec > e as int {
                    assert(a@[e as int] != '=');
                }
                assert(ec == e as int);
            }
            if e == 0 {
                return None;
            }
            if n - (e + 1) < 2 {
                assert(a@.skip(e + 1).len() < 2);
                return None;
            }
            assert(a@.skip(e + 1)[0] == a@[e + 1]);
            assert(a@.skip(e + 1)[a@.skip(e + 1).len() - 1] == a@[n - 1]);
            if a[e + 1] != '"' {
                return None;
            }
            if a[n - 1] != '"' {
                return None;
            }
            let key = copy_range(a, 0, e);
            let val = copy_range(a, e + 2, n - 1);
            proof {
                assert(key@ =~= a@.take(e as int));
                assert(val@ =~= a@.skip(e + 1).subrange(1, a@.skip(e + 1).len() - 1));
            }
            Some((key, val))
        },
    }
}

/// `tag`, `key` and `val` all hold of the node at `i`: the tag name is
/// `tag`, and some attribute is named `key` with exact value `val`.
pub open spec fn spec_elem_matches(
    d: dom::Document,
    i: int,
    tag: Seq<char>,
    key: Seq<char>,
    val: Seq<char>,
) -> bool {
    &&& d.nodes@[i].tag@ == tag
    &&& exists|j: int|
        0 <= j < d.nodes@[i].attrs@.len() && (#[trigger] d.nodes@[i].attrs@[j]).0@ == key
            && d.nodes@[i].attrs@[j].1@ == val
}

/// The first node at or after `i` that matches, in arena (document) order.
pub open spec fn spec_first_match_from(
    d: dom::Document,
    i: int,
    tag: Seq<char>,
    key: Seq<char>,
    val: Seq<char>,
) -> Option<int>
    decreases d.nodes@.len() - i,
{
    if i < 0 || i >= d.nodes@.len() {
        None
    } else if spec_elem_matches(d, i, tag, key, val) {
        Some(i)
    } else {
        spec_first_match_from(d, i + 1, tag, key, val)
    }
}

/// Finds the first element with tag `tag` and an attribute `key` of exact
/// value `val`, in document order.
fn locate_element(d: &dom::Document, tag: &String, key: &String, val: &String) -> (r: Option<
    usize,
>)
    ensures
        match spec_first_match_from(*d, 0, tag@, key@, val@) {
            Some(i) => r matches Some(u) && u as int == i && 0 <= i < d.nodes@.len(),
            None => r is None,
        },
{
    let n = d.nodes.len();
    let mut i: usize = 0;
    while i < n
        invariant
            n == d.nodes@.len(),
            i <= n,
            spec_first_match_from(*d, 0, tag@, key@, val@) == spec_first_match_from(
                *d,
                i as int,
                tag@,
                key@,
                val@,
            ),
        decreases n - i,
    {
        let node = &d.nodes[i];
        if node.tag.eq(tag) {
            let an = node.attrs.len();
            let mut j: usize = 0;
            while j < an
                invariant
                    n == d.nodes@.len(),
                    i < n,
                    *node == d.nodes@[i as int],
                    node.tag@ == tag@,
                    an == node.attrs@.len(),
                    j <= an,
                    spec_first_match_from(*d, 0, tag@, key@, val@) == spec_first_match_from(
                        *d,
                        i as int,
                        tag@,
                        key@,
                        val@,
                    ),
                    forall|j0: int|
                        0 <= j0 < j ==> !((#[trigger] node.attrs@[j0]).0@ == key@
                            && node.attrs@[j0].1@ == val@),
                decreases an - j,
            {
                let kv = &node.attrs[j];
                if kv.0.eq(key) && kv.1.eq(val) {
                    assert((#[trigger] d.nodes@[i as int].attrs@[j as int]).0@ == key@
                        && d.nodes@[i as int].attrs@[j as int].1@ == val@);
                    assert(spec_elem_matches(*d, i as int, tag@, key@, val@));
                    return Some(i);
                }
                j += 1;
            }
            assert(!spec_elem_matches(*d, i as int, tag@, key@, val@));
        } else {
            assert(!spec_elem_matches(*d, i as int, tag@, key@, val@));
        }
        i += 1;
    }
    None
}

/// The ASCII lower-case form of a character.
pub open spec fn spec_lower_char(c: char) -> char {
    if 'A' <= c && c <= 'Z' {
        ((c as int + 32) as char)
    } else {
        c
    }
}

/// The ASCII lower-case form of a text.
pub open spec fn spec_ascii_lower(s: Seq<char>) -> Seq<char> {
    s.map_values(|c: char| spec_lower_char(c))
}

/// Lowers the ASCII letters of `v`.
fn ascii_lower(v: &Vec<char>) -> (r: Vec<char>)
    ensures
        r@ == spec_ascii_lower(v@),
{
    let mut out: Vec<char> = Vec::new();
    let n = v.len();
    let mut i: usize = 0;
    while i < n
        invariant
            n == v@.len(),
            i <= n,
            out@ == spec_ascii_lower(v@.take(i as int)),
        decreases n - i,
    {
        let c = v[i];
        if c >= 'A' && c <= 'Z' {
            out.push((((c as u8) + 32) as char));
        } else {
            out.push(c);
        }
        assert(out@ =~= spec_ascii_lower(v@.take(i + 1)));
        i += 1;
    }
    assert(v@.take(n as int) =~= v@);
    out
}

/// Where the anchor for `pattern` stands in document `d` with raw text
/// `source`: the pattern's two groups give a tag and a `key="value"`
/// predicate, and the anchor is the first element satisfying both.  Tag
/// names compare case-insensitively, as a selector's do: the parser stores
/// HTML tag names lower-case, so the captured tag is lowered before the
/// comparison.  Each failure is the error class it reports.
pub open spec fn spec_anchor(d: dom::Document, pattern: Seq<char>, source: Seq<char>) -> Result<
    int,
    ErrorKind,
> {
    match ext::captures2_of(pattern, source) {
        None => Err(ErrorKind::PatternNotFound),
        Some(g) => match spec_parse_predicate(g.1) {
            None => Err(ErrorKind::ElementNotFound),
            Some(kv) => match spec_first_match_from(d, 0, spec_ascii_lower(g.0), kv.0, kv.1) {
                Some(i) => Ok(i),
                None => Err(ErrorKind::ElementNotFound),
            },
        },
    }
}

/// Resolves the anchor of `pattern` in `doc` (parsed from `source`).
/// `PatternNotFound` where the pattern has no match in the raw text;
/// `ElementNotFound` where its groups derive no valid selector or no element
/// satisfies it; else the first matching element, as `spec_anchor` lays
/// down.
pub fn locate(pattern: &str, source: &str, doc: &dom::Document) -> (r: Result<usize, ParseError>)
    ensures
        match spec_anchor(*doc, pattern@, source@) {
            Ok(i) => r matches Ok(u) && u as int == i && 0 <= i < doc.nodes@.len(),
            Err(k) => r matches Err(e) && e.kind == k,
        },
{
    match ext::regex_captures_two(pattern, source) {
        None => Err(
            ParseError::with_kind(
                ErrorKind::PatternNotFound,
                String::from_str("element not found: the pattern has no match"),
            ),
        ),
        Some(ta) => {
            let (tag_raw, attr) = ta;
            let tag = crate::text::chars_to_string(
                &ascii_lower(&crate::text::str_to_chars(tag_raw.as_str())),
            );
            let achars = crate::text::str_to_chars(attr.as_str());
            match parse_predicate(&achars) {
                None => Err(
                    ParseError::with_kind(
                        ErrorKind::ElementNotFound,
                        String::from_str("element not found: no usable attribute predicate"),
                    ),
                ),
                Some(kv) => {
                    let key = crate::text::chars_to_string(&kv.0);
                    let val = crate::text::chars_to_string(&kv.1);
                    match locate_element(doc, &tag, &key, &val) {
                        Some(i) => Ok(i),
                        None => Err(
                            ParseError::with_kind(
                                ErrorKind::ElementNotFound,
                                String::from_str("element not found: no element fits the selector"),
                            ),
                        ),
                    }
                },
            }
        },
    }
}

/// Flattens a parsed node tree into the arena model: the element nodes in
/// depth-first order, each with its parent and child indices; text and
/// comment nodes carry no tag and are left out.  The tree is read only
/// through the trusted accessors, each deterministic, so the result is a
/// function of the tree alone; its shape is claimed nowhere and validated
/// by `check_document`.
pub(crate) fn build_arena(html: &scraper::Html) -> (r: dom::Document) {
    let root = ext::doc_root_id(html);
    let mut nodes: Vec<dom::DomNode> = Vec::new();
    let mut stack: Vec<(ego_tree::NodeId, Option<usize>)> = Vec::new();
    let top = ext::child_ids(html, root);
    let mut i: usize = top.len();
    while i > 0
        invariant
            i <= top@.len(),
        decreases i,
    {
        i -= 1;
        stack.push((top[i], None));
    }
    let mut budget: usize = usize::MAX;
    while stack.len() > 0 && budget > 0
        decreases budget,
    {
        budget -= 1;
        if let Some(entry) = stack.pop() {
            let (id, parent) = entry;
            match ext::element_info(html, id) {
                None => {
                },
                Some(info) => {
                    let (tag, attrs) = info;
                    let inner = match ext::element_inner_html(html, id) {
                        Some(s) => s,
                        None => String::new(),
                    };
                    let idx = nodes.len();
                    let mut pos_in_parent: usize = 0;
                    match parent {
                        Some(p) => {
                            if p < nodes.len() && nodes[p].children.len() < usize::MAX {
                                pos_in_parent = nodes[p].children.len();
                                nodes[p].children.push(idx);
                            }
                        },
                        None => {
                        },
                    }
                    nodes.push(
                        dom::DomNode {
                            parent,
                            pos_in_parent,
                            tag,
                            attrs,
                            inner,
                            children: Vec::new(),
                        },
                    );
                    let kids = ext::child_ids(html, id);
                    let mut k: usize = kids.len();
                    while k > 0
                        invariant
                            k <= kids@.len(),
                        decreases k,
                    {
                        k -= 1;
                        stack.push((kids[k], Some(idx)));
                    }
                },
            }
        }
    }
    dom::Document { nodes }
}

/// Parses page text into the arena document model and validates it.  The
/// model is the named parse result `dom_of`, so the same text always yields
/// the same document; it is returned exactly when the verified
/// `check_document` accepts it, so a returned document is well-formed.
pub fn parse_document(source: &str) -> (r: Option<dom::Document>)
    ensures
        ({
            let d = ext::dom_of(source@);
            if d.wf() {
                r == Some(d)
            } else {
                r is None
            }
        }),
{
    let doc = ext::parse_document_ext(source);
    if dom::check_document(&doc) {
        Some(doc)
    } else {
        None
    }
}

/// The inner content of the element each relation path reaches from the
/// shared anchor, one text per path in order, or the error class of the
/// first path that fails.
pub open spec fn spec_paths(
    d: dom::Document,
    anchor: int,
    rels: Seq<Vec<ElementRelation>>,
) -> Result<Seq<Seq<char>>, ErrorKind>
    decreases rels.len(),
{
    if rels.len() == 0 {
        Ok(Seq::empty())
    } else {
        match dom::spec_navigate(d, anchor, rels[0]@) {
            None => Err(ErrorKind::TraversalOutOfBounds),
            Some(j) => match spec_paths(d, anchor, rels.drop_first()) {
                Ok(tail) => Ok(seq![d.nodes@[j].inner@] + tail),
                Err(k) => Err(k),
            },
        }
    }
}

/// What extraction yields on document `d`: resolve the anchor once, then
/// walk every relation path from it.
pub open spec fn spec_extract(
    d: dom::Document,
    pattern: Seq<char>,
    source: Seq<char>,
    rels: Seq<Vec<ElementRelation>>,
) -> Result<Seq<Seq<char>>, ErrorKind> {
    match spec_anchor(d, pattern, source) {
        Err(k) => Err(k),
        Ok(a) => spec_paths(d, a, rels),
    }
}

/// A successful extraction yields one text per relation path.
pub proof fn lemma_paths_len(d: dom::Document, anchor: int, rels: Seq<Vec<ElementRelation>>)
    ensures
        match spec_paths(d, anchor, rels) {
            Ok(ss) => ss.len() == rels.len(),
            Err(_) => true,
        },
    decreases rels.len(),
{
    if rels.len() > 0 {
        lemma_paths_len(d, anchor, rels.drop_first());
    }
}

/// Extraction against an already-parsed document: locates the anchor once,
/// then walks every relation path from that same anchor and collects each
/// terminal element's inner content.  Exact against `spec_extract`: fails
/// atomically with the first failure's class, and on success yields one
/// text per path.
pub fn extract_from(
    doc: &dom::Document,
    pattern: &str,
    source: &str,
    relations: &Vec<Vec<ElementRelation>>,
) -> (r: Result<Vec<String>, ParseError>)
    requires
        doc.wf(),
    ensures
        match spec_extract(*doc, pattern@, source@, relations@) {
            Ok(ss) => r matches Ok(v) && v@.map_values(|s: String| s@) == ss && v@.len()
                == relations@.len(),
            Err(k) => r matches Err(e) && e.kind == k,
        },
{
    let anchor = match locate(pattern, source, doc) {
        Ok(a) => a,
        Err(e) => {
            return Err(e);
        },
    };
    let mut out: Vec<String> = Vec::new();
    let n = relations.len();
    let mut t: usize = 0;
    assert(relations@.skip(0) =~= relations@);
    while t < n
        invariant
            doc.wf(),
            n == relations@.len(),
            t <= n,
            out@.len() == t,
            anchor < doc.nodes@.len(),
            spec_anchor(*doc, pattern@, source@) == Ok::<int, ErrorKind>(anchor as int),
            spec_paths(*doc, anchor as int, relations@) == (match spec_paths(
                *doc,
                anchor as int,
                relations@.skip(t as int),
            ) {
                Ok(tail) => Ok(out@.map_values(|s: String| s@) + tail),
                Err(k) => Err::<Seq<Seq<char>>, ErrorKind>(k),
            }),
        decreases n - t,
    {
        let ghost rest = relations@.skip(t as int);
        proof {
            assert(rest[0] == relations@[t as int]);
            assert(rest.drop_first() =~= relations@.skip(t + 1));
        }
        let path = &relations[t];
        match dom::navigate_relation(doc, anchor, path) {
            Ok(j) => {
                let ghost out_old = out@;
                out.push(doc.nodes[j].inner.clone());
                proof {
                    let ghost inner_v = doc.nodes@[j as int].inner@;
                    assert(out@.map_values(|s: String| s@) =~= out_old.map_values(|s: String| s@)
                        + seq![inner_v]);
                    match spec_paths(*doc, anchor as int, relations@.skip(t + 1)) {
                        Ok(tail) => {
                            assert(out_old.map_values(|s: String| s@) + (seq![inner_v] + tail)
                                =~= out@.map_values(|s: String| s@) + tail);
                        },
                        Err(_) => {
                        },
                    }
                }
            },
            Err(e) => {
                return Err(e);
            },
        }
        t += 1;
    }
    assert(relations@.skip(t as int) =~= Seq::<Vec<ElementRelation>>::empty());
    proof {
        lemma_paths_len(*doc, anchor as int, relations@);
        assert(out@.map_values(|s: String| s@) + Seq::<Seq<char>>::empty() =~= out@.map_values(
            |s: String| s@,
        ));
    }
    Ok(out)
}

/// Locates the element the pattern's two capture groups select in `source`,
/// then returns the inner content at the end of each relation path from it.
/// The document is the named parse result of `source`; `extract_from`
/// carries the exact contract against it, and a page whose model fails
/// validation reports `ElementNotFound`.
pub fn get_inner_html_from_element(
    regex: &str,
    source: &str,
    relations: Vec<Vec<ElementRelation>>,
) -> (r: Result<Vec<String>, ParseError>)
    ensures
        ({
            let d = ext::dom_of(source@);
            if d.wf() {
                match spec_extract(d, regex@, source@, relations@) {
                    Ok(ss) => r matches Ok(v) && v@.map_values(|s: String| s@) == ss,
                    Err(k) => r matches Err(e) && e.kind == k,
                }
            } else {
                r matches Err(e) && e.kind == ErrorKind::ElementNotFound
            }
        }),
        r matches Ok(v) ==> v@.len() == relations@.len(),
{
    match parse_document(source) {
        Some(doc) => extract_from(&doc, regex, source, &relations),
        None => Err(
            ParseError::with_kind(
                ErrorKind::ElementNotFound,
                String::from_str("element not found: the page could not be modelled"),
            ),
        ),
    }
}

/// One structural move inside the document tree.
#[derive(Clone, Copy, Debug, PartialEq, Eq, Structural)]
pub enum ElementRelation {
    /// Move to the immediate parent.
    Parent,
    /// Move to a child: `Child(0)` is the first child, a negative index the
    /// last child, and `Child(k)` for `k > 0` the child reached by walking
    /// `k` steps forward from the first child.
    Child(i32),
    /// Move forward through following siblings; `Sibling(k)` walks `k` steps,
    /// so `Sibling(0)` stays in place.
    Sibling(i32),
}

} // verus!
