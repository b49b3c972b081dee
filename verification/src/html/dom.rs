//! An arena-indexed model of a parsed HTML document.  Nodes live in one
//! vector; parent, child and sibling links are plain indices, so a traversal
//! that fails partway holds no dangling references.  Only element nodes are
//! kept: text and comment nodes carry no tag and cannot anchor or continue a
//! relation path.

use vstd::prelude::*;

use crate::html::{ElementRelation, ErrorKind, ParseError};

verus! {

/// One element of the document tree.
pub struct DomNode {
    /// Arena index of the parent element, `None` for a root.
    pub parent: Option<usize>,
    /// Position of this node in its parent's child list.
    pub pos_in_parent: usize,
    /// Lower-case tag name.
    pub tag: String,
    /// Attribute names and values, in document order.
    pub attrs: Vec<(String, String)>,
    /// The serialized content between the element's tags.
    pub inner: String,
    /// Arena indices of the element children, in document order.
    pub children: Vec<usize>,
}

/// A parsed document: an arena of element nodes in document (pre-)order.
pub struct Document {
    pub nodes: Vec<DomNode>,
}

impl Document {
    /// The links of node `i` are consistent: its parent stands earlier in the
    /// arena and lists it as a child at its recorded position, and each of
    /// its children stands later, pointing back at `i`.
    pub open spec fn node_wf(self, i: int) -> bool {
        let n = self.nodes@[i];
        &&& match n.parent {
            Some(p) => (p as int) < i && n.pos_in_parent < self.nodes@[p as int].children@.len()
                && self.nodes@[p as int].children@[n.pos_in_parent as int] as int == i,
            None => true,
        }
        &&& forall|j: int|
            0 <= j < n.children@.len() ==> {
                let c = #[trigger] n.children@[j];
                &&& i < (c as int) && (c as int) < self.nodes@.len()
                &&& self.nodes@[c as int].parent == Some(i as usize)
                &&& self.nodes@[c as int].pos_in_parent as int == j
            }
    }

    /// Every node's links are consistent.
    pub open spec fn wf(self) -> bool {
        forall|i: int| 0 <= i < self.nodes@.len() ==> #[trigger] self.node_wf(i)
    }

    /// The number of nodes.
    pub fn len(&self) -> (n: usize)
        ensures
            n == self.nodes@.len(),
    {
        self.nodes.len()
    }
}

/// Decides `wf`: checks every node's links for consistency.
pub fn check_document(doc: &Document) -> (b: bool)
    ensures
        b == doc.wf(),
{
    let n = doc.nodes.len();
    let mut i: usize = 0;
    while i < n
        invariant
            n == doc.nodes@.len(),
            i <= n,
            forall|i0: int| 0 <= i0 < i ==> #[trigger] doc.node_wf(i0),
        decreases n - i,
    {
        let node = &doc.nodes[i];
        match node.parent {
            Some(p) => {
                if p >= i {
                    assert(!doc.node_wf(i as int));
                    return false;
                }
                if node.pos_in_parent >= doc.nodes[p].children.len() {
                    assert(!doc.node_wf(i as int));
                    return false;
                }
                if doc.nodes[p].children[node.pos_in_parent] != i {
                    assert(!doc.node_wf(i as int));
                    return false;
                }
            },
            None => {
            },
        }
        let cn = node.children.len();
        let mut j: usize = 0;
        while j < cn
            invariant
                n == doc.nodes@.len(),
                i < n,
                node == doc.nodes@[i as int],
                cn == node.children@.len(),
                j <= cn,
                forall|j0: int|
                    0 <= j0 < j ==> {
                        let c = #[trigger] node.children@[j0];
                        &&& (i as int) < (c as int) && (c as int) < n
                        &&& doc.nodes@[c as int].parent == Some(i as usize)
                        &&& doc.nodes@[c as int].pos_in_parent as int == j0
                    },
            decreases cn - j,
        {
            let c = node.children[j];
            if c <= i || c >= n {
                assert(!doc.node_wf(i as int));
                return false;
            }
            let ok = match doc.nodes[c].parent {
                Some(pp) => pp == i,
                None => false,
            };
            if !ok {
                assert(!doc.node_wf(i as int));
                return false;
            }
            if doc.nodes[c].pos_in_parent != j {
                assert(!doc.node_wf(i as int));
                return false;
            }
            j += 1;
        }
        assert(doc.node_wf(i as int));
        i += 1;
    }
    true
}

/// The node one relation step away from `at`, or `None` where the document
/// has no such relative: the parent of a root, a child of a childless
/// element, or a child or sibling position past the end of the list.
pub open spec fn spec_step(d: Document, at: int, rel: ElementRelation) -> Option<int> {
    match rel {
        ElementRelation::Parent => match d.nodes@[at].parent {
            Some(p) => Some(p as int),
            None => None,
        },
        ElementRelation::Child(k) => {
            let c = d.nodes@[at].children@;
            if c.len() == 0 {
                None
            } else if k < 0 {
                Some(c.last() as int)
            } else if (k as int) < c.len() {
                Some(c[k as int] as int)
            } else {
                None
            }
        },
        ElementRelation::Sibling(k) => {
            if k < 0 {
                None
            } else {
                match d.nodes@[at].parent {
                    None => if k == 0 {
                        Some(at)
                    } else {
                        None
                    },
                    Some(p) => {
                        let c = d.nodes@[p as int].children@;
                        let pos = d.nodes@[at].pos_in_parent as int;
                        if pos + k < c.len() {
                            Some(c[pos + k] as int)
                        } else {
                            None
                        }
                    },
                }
            }
        },
    }
}

/// The node reached by walking `path` from `at`, step by step, or `None` as
/// soon as one step has no relative.
pub open spec fn spec_navigate(d: Document, at: int, path: Seq<ElementRelation>) -> Option<int>
    decreases path.len(),
{
    if path.len() == 0 {
        Some(at)
    } else {
        match spec_step(d, at, path[0]) {
            Some(m) => spec_navigate(d, m, path.drop_first()),
            None => None,
        }
    }
}

/// In a consistent document, a step from an in-bounds node lands in bounds.
pub proof fn lemma_step_in_bounds(d: Document, at: int, rel: ElementRelation)
    requires
        d.wf(),
        0 <= at < d.nodes@.len(),
    ensures
        match spec_step(d, at, rel) {
            Some(j) => 0 <= j < d.nodes@.len(),
            None => true,
        },
{
    assert(d.node_wf(at));
    match rel {
        ElementRelation::Parent => {
        },
        ElementRelation::Child(k) => {
            let c = d.nodes@[at].children@;
            if c.len() > 0 {
                assert(c.last() == c[c.len() - 1]);
            }
        },
        ElementRelation::Sibling(k) => {
            match d.nodes@[at].parent {
                Some(p) => {
                    assert(d.node_wf(p as int));
                },
                None => {
                },
            }
        },
    }
}

/// Every node a walk reaches from an in-bounds node is in bounds.
pub proof fn lemma_navigate_in_bounds(d: Document, at: int, path: Seq<ElementRelation>)
    requires
        d.wf(),
        0 <= at < d.nodes@.len(),
    ensures
        match spec_navigate(d, at, path) {
            Some(j) => 0 <= j < d.nodes@.len(),
            None => true,
        },
    decreases path.len(),
{
    if path.len() > 0 {
        lemma_step_in_bounds(d, at, path[0]);
        match spec_step(d, at, path[0]) {
            Some(m) => {
                lemma_navigate_in_bounds(d, m, path.drop_first());
            },
            None => {
            },
        }
    }
}

/// Walks `path` from the element at arena index `anchor`.  Returns the index
/// of the terminal element, or a `TraversalOutOfBounds` error exactly where
/// some step has no relative, as `spec_navigate` lays down.
pub fn navigate_relation(doc: &Document, anchor: usize, path: &Vec<ElementRelation>) -> (r: Result<
    usize,
    ParseError,
>)
    requires
        doc.wf(),
        anchor < doc.nodes@.len(),
    ensures
        match spec_navigate(*doc, anchor as int, path@) {
            Some(j) => r matches Ok(u) && u as int == j && 0 <= j < doc.nodes@.len(),
            None => r matches Err(e) && e.kind == ErrorKind::TraversalOutOfBounds,
        },
{
    let mut cur: usize = anchor;
    let mut t: usize = 0;
    assert(path@.skip(0) =~= path@);
    while t < path.len()
        invariant
            doc.wf(),
            cur < doc.nodes@.len(),
            t <= path@.len(),
            spec_navigate(*doc, anchor as int, path@) == spec_navigate(
                *doc,
                cur as int,
                path@.skip(t as int),
            ),
        decreases path@.len() - t,
    {
        let ghost rest = path@.skip(t as int);
        proof {
            assert(rest[0] == path@[t as int]);
            assert(rest.drop_first() =~= path@.skip(t + 1));
            assert(doc.node_wf(cur as int));
            lemma_step_in_bounds(*doc, cur as int, path@[t as int]);
        }
        let step = path[t];
        let node = &doc.nodes[cur];
        let next: usize = match step {
            ElementRelation::Parent => {
                match node.parent {
                    Some(p) => p,
                    None => {
                        return Err(
                            ParseError::with_kind(
                                ErrorKind::TraversalOutOfBounds,
                                String::from_str("no parent element"),
                            ),
                        );
                    },
                }
            },
            ElementRelation::Child(k) => {
                if node.children.len() == 0 {
                    return Err(
                        ParseError::with_kind(
                            ErrorKind::TraversalOutOfBounds,
                            String::from_str("no child element"),
                        ),
                    );
                } else if k < 0 {
                    node.children[node.children.len() - 1]
                } else if (k as usize) < node.children.len() {
                    node.children[k as usize]
                } else {
                    return Err(
                        ParseError::with_kind(
                            ErrorKind::TraversalOutOfBounds,
                            String::from_str("child index out of bounds"),
                        ),
                    );
                }
            },
            ElementRelation::Sibling(k) => {
                if k < 0 {
                    return Err(
                        ParseError::with_kind(
                            ErrorKind::TraversalOutOfBounds,
                            String::from_str("negative sibling offset"),
                        ),
                    );
                }
                match node.parent {
                    None => {
                        if k == 0 {
                            cur
                        } else {
                            return Err(
                                ParseError::with_kind(
                                    ErrorKind::TraversalOutOfBounds,
                                    String::from_str("no following sibling"),
                                ),
                            );
                        }
                    },
                    Some(p) => {
                        let siblings = &doc.nodes[p].children;
                        if (k as usize) < siblings.len() && node.pos_in_parent <= siblings.len()
                            - 1 - (k as usize) {
                            siblings[node.pos_in_parent + (k as usize)]
                        } else {
                            return Err(
                                ParseError::with_kind(
                                    ErrorKind::TraversalOutOfBounds,
                                    String::from_str("no following sibling"),
                                ),
                            );
                        }
                    },
                }
            },
        };
        cur = next;
        t += 1;
    }
    assert(path@.skip(t as int) =~= Seq::<ElementRelation>::empty());
    Ok(cur)
}

} // verus!
