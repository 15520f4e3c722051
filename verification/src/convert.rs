use vstd::prelude::*;
use crate::doc::node_to_doc;
use crate::json::doc_to_json;
use crate::json::json_of_node;
use crate::json::lemma_represents_json;
use crate::node::ParseNode;
use crate::node::check_wf;

verus! {

/// Why no JSON document was produced. Every failure is final: nothing is
/// retried and nothing is downgraded.
#[derive(Clone, Copy, PartialEq, Eq, Structural, Debug)]
pub enum TreeJsonError {
    /// The grammar did not attach to the parser engine.
    EngineInit,
    /// The engine returned no tree at all.
    NoParseTree,
    /// A node's spans do not fit the source buffer or cut a multi-byte
    /// character.
    InvalidSpans,
}

/// Serializes the parse tree `n` over the source buffer `src` as one compact
/// JSON document: exactly the bytes `json_of_node(n, src)`. Fails, with
/// `InvalidSpans` and no output, exactly when some node's spans do not fit
/// `src`.
pub fn node_to_json(n: &ParseNode, src: &[u8]) -> (r: Result<Vec<u8>, TreeJsonError>)
    ensures
        (r is Ok) == n.wf(src@),
        r matches Ok(out) ==> out@ == json_of_node(*n, src@),
        r matches Err(e) ==> e == TreeJsonError::InvalidSpans,
{
    if !check_wf(n, src) {
        return Err(TreeJsonError::InvalidSpans);
    }
    let d = node_to_doc(n, src);
    proof {
        lemma_represents_json(d, *n, src@);
    }
    Ok(doc_to_json(&d))
}

} // verus!
