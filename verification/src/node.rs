use vstd::prelude::*;

verus! {

/// One node of a parse tree, held as plain values: the grammar's kind label
/// as raw bytes, the zero-based row/column span, the byte span into the
/// source buffer, and the children in the engine's left-to-right order.
pub struct ParseNode {
    pub kind: Vec<u8>,
    pub start_row: usize,
    pub start_col: usize,
    pub end_row: usize,
    pub end_col: usize,
    pub start_byte: usize,
    pub end_byte: usize,
    pub children: Vec<ParseNode>,
}

/// Lexicographic order on (row, column) positions.
pub open spec fn pos_le(r1: nat, c1: nat, r2: nat, c2: nat) -> bool {
    r1 < r2 || (r1 == r2 && c1 <= c2)
}

/// Byte offset `i` of the UTF-8 buffer `src` does not split a multi-byte
/// character: it is an end of the buffer, or the byte at `i` is not a
/// continuation byte (continuation bytes lie in `0x80..0xC0`).
pub open spec fn at_char_boundary(src: Seq<u8>, i: int) -> bool {
    i == 0 || i == src.len() || src[i] < 0x80 || src[i] >= 0xC0
}

/// Number of nodes in a forest of parse trees.
pub open spec fn count_forest(s: Seq<ParseNode>) -> nat
    decreases s,
{
    if s.len() == 0 {
        0
    } else {
        s[0].count() + count_forest(s.drop_first())
    }
}

/// Every tree of the forest `s` is well formed with respect to `src`.
pub open spec fn wf_forest(s: Seq<ParseNode>, src: Seq<u8>) -> bool
    decreases s,
{
    s.len() == 0 || (s[0].wf(src) && wf_forest(s.drop_first(), src))
}

impl ParseNode {
    /// Number of nodes in this tree, the node itself included.
    pub open spec fn count(self) -> nat
        decreases self,
    {
        1 + count_forest(self.children@)
    }

    /// The node's own spans are consistent with the source buffer `src`: the
    /// byte span lies inside the buffer and cuts it at character boundaries,
    /// and the start position does not come after the end position.
    pub open spec fn spans_ok(self, src: Seq<u8>) -> bool {
        &&& self.start_byte <= self.end_byte <= src.len()
        &&& at_char_boundary(src, self.start_byte as int)
        &&& at_char_boundary(src, self.end_byte as int)
        &&& pos_le(
            self.start_row as nat,
            self.start_col as nat,
            self.end_row as nat,
            self.end_col as nat,
        )
    }

    /// The node and all its descendants have spans consistent with `src`.
    pub open spec fn wf(self, src: Seq<u8>) -> bool
        decreases self,
    {
        self.spans_ok(src) && wf_forest(self.children@, src)
    }
}

/// A forest is well formed exactly when each of its trees is.
pub proof fn lemma_wf_forest_iff(s: Seq<ParseNode>, src: Seq<u8>)
    ensures
        wf_forest(s, src) <==> (forall|i: int| 0 <= i < s.len() ==> #[trigger] s[i].wf(src)),
    decreases s.len(),
{
    if s.len() > 0 {
        lemma_wf_forest_iff(s.drop_first(), src);
        if wf_forest(s, src) {
            assert forall|i: int| 0 <= i < s.len() implies #[trigger] s[i].wf(src) by {
                if i > 0 {
                    assert(s.drop_first()[i - 1] == s[i]);
                }
            }
        }
        if forall|i: int| 0 <= i < s.len() ==> #[trigger] s[i].wf(src) {
            assert forall|j: int|
                0 <= j < s.drop_first().len() implies #[trigger] s.drop_first()[j].wf(src) by {
                assert(s.drop_first()[j] == s[j + 1]);
            }
            assert(s[0].wf(src));
            assert(wf_forest(s, src));
        }
    }
}

/// Decides `at_char_boundary(src@, i)`.
pub fn check_boundary(src: &[u8], i: usize) -> (r: bool)
    requires
        i <= src@.len(),
    ensures
        r == at_char_boundary(src@, i as int),
{
    i == 0 || i == src.len() || src[i] < 0x80 || src[i] >= 0xC0
}

/// Decides `n.wf(src@)`.
pub fn check_wf(n: &ParseNode, src: &[u8]) -> (r: bool)
    ensures
        r == n.wf(src@),
    decreases *n,
{
    proof {
        lemma_wf_forest_iff(n.children@, src@);
    }
    if !(n.start_byte <= n.end_byte && n.end_byte <= src.len()) {
        return false;
    }
    if !check_boundary(src, n.start_byte) || !check_boundary(src, n.end_byte) {
        return false;
    }
    if !(n.start_row < n.end_row || (n.start_row == n.end_row && n.start_col <= n.end_col)) {
        return false;
    }
    let mut i: usize = 0;
    while i < n.children.len()
        invariant
            0 <= i <= n.children@.len(),
            forall|j: int| 0 <= j < i ==> #[trigger] n.children@[j].wf(src@),
        decreases n.children@.len() - i,
    {
        if !check_wf(&n.children[i], src) {
            proof {
                lemma_wf_forest_iff(n.children@, src@);
            }
            return false;
        }
        i = i + 1;
    }
    proof {
        lemma_wf_forest_iff(n.children@, src@);
    }
    true
}

} // verus!
