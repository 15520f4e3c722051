use vstd::prelude::*;
use vstd::slice::slice_to_vec;
use crate::node::ParseNode;
use crate::node::count_forest;
use crate::node::lemma_wf_forest_iff;
use crate::node::pos_le;

verus! {

/// The serializable mirror of a parse node: its kind, its row/column span,
/// the raw bytes of the source between its byte offsets, and, only when the
/// parse node has children, their mirrors in the same order.
pub struct DocNode {
    pub kind: Vec<u8>,
    pub start_row: usize,
    pub start_col: usize,
    pub end_row: usize,
    pub end_col: usize,
    pub text: Vec<u8>,
    pub children: Option<Vec<DocNode>>,
}

/// The forests `ds` and `ns` mirror each other tree for tree, in order.
pub open spec fn represents_forest(ds: Seq<DocNode>, ns: Seq<ParseNode>, src: Seq<u8>) -> bool
    decreases ns,
{
    &&& ds.len() == ns.len()
    &&& ns.len() > 0 ==> {
        &&& ds[0].represents(ns[0], src)
        &&& represents_forest(ds.drop_first(), ns.drop_first(), src)
    }
}

/// Number of nodes in a forest of document trees.
pub open spec fn doc_count_forest(ds: Seq<DocNode>) -> nat
    decreases ds,
{
    if ds.len() == 0 {
        0
    } else {
        ds[0].count() + doc_count_forest(ds.drop_first())
    }
}

/// Every document tree of the forest has its start position at or before its
/// end position, at every node.
pub open spec fn doc_positions_ordered_forest(ds: Seq<DocNode>) -> bool
    decreases ds,
{
    ds.len() == 0 || (ds[0].positions_ordered() && doc_positions_ordered_forest(ds.drop_first()))
}

impl DocNode {
    /// The document node is the faithful mirror of the parse node `n` over
    /// the source buffer `src`: same kind, same positions, `text` equal to
    /// the byte slice of `src` under `n`'s byte span, a `children` field
    /// exactly when `n` has children, and mirrored children in `n`'s order.
    pub open spec fn represents(self, n: ParseNode, src: Seq<u8>) -> bool
        decreases n,
    {
        &&& self.kind@ == n.kind@
        &&& self.start_row == n.start_row
        &&& self.start_col == n.start_col
        &&& self.end_row == n.end_row
        &&& self.end_col == n.end_col
        &&& self.text@ == src.subrange(n.start_byte as int, n.end_byte as int)
        &&& match self.children {
            None => n.children@.len() == 0,
            Some(cs) => n.children@.len() > 0 && represents_forest(cs@, n.children@, src),
        }
    }

    /// Number of nodes in this document tree, the node itself included.
    pub open spec fn count(self) -> nat
        decreases self,
    {
        1 + match self.children {
            None => 0nat,
            Some(cs) => doc_count_forest(cs@),
        }
    }

    /// The start position is at or before the end position, here and in
    /// every descendant.
    pub open spec fn positions_ordered(self) -> bool
        decreases self,
    {
        &&& pos_le(
            self.start_row as nat,
            self.start_col as nat,
            self.end_row as nat,
            self.end_col as nat,
        )
        &&& match self.children {
            None => true,
            Some(cs) => doc_positions_ordered_forest(cs@),
        }
    }
}

/// Two forests mirror each other exactly when they have the same length and
/// mirror each other index by index.
pub proof fn lemma_represents_forest_iff(ds: Seq<DocNode>, ns: Seq<ParseNode>, src: Seq<u8>)
    ensures
        represents_forest(ds, ns, src) <==> (ds.len() == ns.len() && forall|i: int|
            0 <= i < ns.len() ==> #[trigger] ds[i].represents(ns[i], src)),
    decreases ns.len(),
{
    if ns.len() > 0 && ds.len() == ns.len() {
        lemma_represents_forest_iff(ds.drop_first(), ns.drop_first(), src);
        if represents_forest(ds, ns, src) {
            assert forall|i: int| 0 <= i < ns.len() implies #[trigger] ds[i].represents(
                ns[i],
                src,
            ) by {
                if i > 0 {
                    assert(ds.drop_first()[i - 1] == ds[i]);
                    assert(ns.drop_first()[i - 1] == ns[i]);
                }
            }
        }
        if forall|i: int| 0 <= i < ns.len() ==> #[trigger] ds[i].represents(ns[i], src) {
            assert forall|j: int|
                0 <= j < ns.drop_first().len() implies #[trigger] ds.drop_first()[j].represents(
                ns.drop_first()[j],
                src,
            ) by {
                assert(ds.drop_first()[j] == ds[j + 1]);
                assert(ns.drop_first()[j] == ns[j + 1]);
            }
            assert(ds[0].represents(ns[0], src));
            assert(represents_forest(ds, ns, src));
        }
    }
}

/// A document tree that mirrors a parse tree has exactly as many nodes.
pub proof fn lemma_isomorphism(d: DocNode, n: ParseNode, src: Seq<u8>)
    requires
        d.represents(n, src),
    ensures
        d.count() == n.count(),
    decreases n,
{
    match d.children {
        None => {}
        Some(cs) => {
            lemma_isomorphism_forest(cs@, n.children@, src);
        }
    }
}

/// Mirrored forests have equally many nodes.
pub proof fn lemma_isomorphism_forest(ds: Seq<DocNode>, ns: Seq<ParseNode>, src: Seq<u8>)
    requires
        represents_forest(ds, ns, src),
    ensures
        doc_count_forest(ds) == count_forest(ns),
    decreases ns,
{
    if ns.len() > 0 {
        lemma_isomorphism(ds[0], ns[0], src);
        lemma_isomorphism_forest(ds.drop_first(), ns.drop_first(), src);
    }
}

/// The children of a document node mirror the children of its parse node
/// index for index: same number, same order.
pub proof fn lemma_child_order(d: DocNode, n: ParseNode, src: Seq<u8>)
    requires
        d.represents(n, src),
        n.children@.len() > 0,
    ensures
        d.children matches Some(cs) ==> cs@.len() == n.children@.len() && forall|i: int|
            0 <= i < n.children@.len() ==> #[trigger] cs@[i].represents(n.children@[i], src),
{
    match d.children {
        None => {}
        Some(cs) => {
            lemma_represents_forest_iff(cs@, n.children@, src);
        }
    }
}

/// A document node has a `children` field exactly when the parse node it
/// mirrors has at least one child.
pub proof fn lemma_leaf_rule(d: DocNode, n: ParseNode, src: Seq<u8>)
    requires
        d.represents(n, src),
    ensures
        (d.children is Some) <==> n.children@.len() > 0,
{
}

/// The `text` of a document node is the byte slice of the source buffer
/// under the byte span of the parse node it mirrors.
pub proof fn lemma_span_fidelity(d: DocNode, n: ParseNode, src: Seq<u8>)
    requires
        d.represents(n, src),
    ensures
        d.text@ == src.subrange(n.start_byte as int, n.end_byte as int),
{
}

/// A document tree mirrored from a well-formed parse tree has its start
/// position at or before its end position, at every node.
pub proof fn lemma_positions_ordered(d: DocNode, n: ParseNode, src: Seq<u8>)
    requires
        n.wf(src),
        d.represents(n, src),
    ensures
        d.positions_ordered(),
    decreases n,
{
    match d.children {
        None => {}
        Some(cs) => {
            lemma_positions_ordered_forest(cs@, n.children@, src);
        }
    }
}

/// Forest form of `lemma_positions_ordered`.
pub proof fn lemma_positions_ordered_forest(ds: Seq<DocNode>, ns: Seq<ParseNode>, src: Seq<u8>)
    requires
        crate::node::wf_forest(ns, src),
        represents_forest(ds, ns, src),
    ensures
        doc_positions_ordered_forest(ds),
    decreases ns,
{
    if ns.len() > 0 {
        lemma_positions_ordered(ds[0], ns[0], src);
        lemma_positions_ordered_forest(ds.drop_first(), ns.drop_first(), src);
    }
}

/// Mirrors the parse tree `n` into a document tree, slicing each node's text
/// out of `src` at its byte span.
pub fn node_to_doc(n: &ParseNode, src: &[u8]) -> (r: DocNode)
    requires
        n.wf(src@),
    ensures
        r.represents(*n, src@),
    decreases *n,
{
    let kind = slice_to_vec(n.kind.as_slice());
    let text = slice_to_vec(&src[n.start_byte..n.end_byte]);
    let children: Option<Vec<DocNode>>;
    if n.children.len() == 0 {
        children = None;
    } else {
        proof {
            lemma_wf_forest_iff(n.children@, src@);
        }
        let mut cs: Vec<DocNode> = Vec::new();
        let mut i: usize = 0;
        while i < n.children.len()
            invariant
                cs@.len() == i,
                0 <= i <= n.children@.len(),
                forall|j: int|
                    0 <= j < n.children@.len() ==> #[trigger] n.children@[j].wf(src@),
                forall|j: int|
                    0 <= j < i ==> #[trigger] cs@[j].represents(n.children@[j], src@),
            decreases n.children@.len() - i,
        {
            let d = node_to_doc(&n.children[i], src);
            cs.push(d);
            i = i + 1;
        }
        proof {
            lemma_represents_forest_iff(cs@, n.children@, src@);
        }
        children = Some(cs);
    }
    DocNode {
        kind,
        start_row: n.start_row,
        start_col: n.start_col,
        end_row: n.end_row,
        end_col: n.end_col,
        text,
        children,
    }
}

} // verus!
