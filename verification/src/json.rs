use vstd::prelude::*;
use vstd::string::StringSliceAdditionalSpecFns;
use crate::doc::DocNode;
use crate::node::ParseNode;

verus! {

/// Decimal digits of `n`, most significant first, as ASCII bytes.
pub open spec fn dec_digits(n: nat) -> Seq<u8>
    decreases n,
{
    if n < 10 {
        seq![(48 + n) as u8]
    } else {
        dec_digits(n / 10) + seq![(48 + n % 10) as u8]
    }
}

/// Lowercase hexadecimal digit for a value below 16.
pub open spec fn hex_digit(n: u8) -> u8 {
    if n < 10 {
        (48 + n) as u8
    } else {
        (87 + n) as u8
    }
}

/// How one byte of a string appears inside a JSON string literal: quote and
/// backslash are escaped, the named control characters get their two-byte
/// escapes, the remaining control characters a six-byte `\u00..` escape, and
/// every other byte stands unchanged.
pub open spec fn escape_byte(b: u8) -> Seq<u8> {
    if b == 34 {
        seq![92u8, 34u8]
    } else if b == 92 {
        seq![92u8, 92u8]
    } else if b == 8 {
        seq![92u8, 98u8]
    } else if b == 9 {
        seq![92u8, 116u8]
    } else if b == 10 {
        seq![92u8, 110u8]
    } else if b == 12 {
        seq![92u8, 102u8]
    } else if b == 13 {
        seq![92u8, 114u8]
    } else if b < 32 {
        seq![92u8, 117u8, 48u8, 48u8, hex_digit(b / 16), hex_digit(b % 16)]
    } else {
        seq![b]
    }
}

/// The bytes of `s`, each escaped as `escape_byte` says.
pub open spec fn escape_bytes(s: Seq<u8>) -> Seq<u8>
    decreases s,
{
    if s.len() == 0 {
        Seq::<u8>::empty()
    } else {
        escape_bytes(s.drop_last()) + escape_byte(s.last())
    }
}

/// A JSON string literal holding the bytes of `s`.
pub open spec fn json_string(s: Seq<u8>) -> Seq<u8> {
    seq![34u8] + escape_bytes(s) + seq![34u8]
}

/// A JSON array of the two numbers of a position: `[row,column]`.
pub open spec fn json_pos(row: nat, col: nat) -> Seq<u8> {
    seq![91u8] + dec_digits(row) + seq![44u8] + dec_digits(col) + seq![93u8]
}

/// The document nodes of `ds` as JSON values separated by commas.
pub open spec fn json_forest(ds: Seq<DocNode>) -> Seq<u8>
    decreases ds,
{
    if ds.len() == 0 {
        Seq::<u8>::empty()
    } else if ds.len() == 1 {
        json_doc(ds[0])
    } else {
        json_forest(ds.drop_last()) + seq![44u8] + json_doc(ds.last())
    }
}

/// The document node `d` as one compact JSON object. Its keys stand in
/// sorted order: `children` (only when present), then `end_position`,
/// `start_position`, `text`, `type`.
pub open spec fn json_doc(d: DocNode) -> Seq<u8>
    decreases d,
{
    seq![123u8] + (match d.children {
        None => Seq::<u8>::empty(),
        Some(cs) => ("\"children\":[").spec_bytes() + json_forest(cs@) + seq![93u8, 44u8],
    }) + ("\"end_position\":").spec_bytes() + json_pos(d.end_row as nat, d.end_col as nat) + (
    ",\"start_position\":").spec_bytes() + json_pos(d.start_row as nat, d.start_col as nat) + (
    ",\"text\":").spec_bytes() + json_string(d.text@) + (",\"type\":").spec_bytes()
        + json_string(d.kind@) + seq![125u8]
}

/// The JSON object that mirrors the parse node `n` over the source `src`:
/// what `json_doc` yields on any document node that represents `n`.
pub open spec fn json_of_node(n: ParseNode, src: Seq<u8>) -> Seq<u8>
    decreases n,
{
    seq![123u8] + (if n.children@.len() == 0 {
        Seq::<u8>::empty()
    } else {
        ("\"children\":[").spec_bytes() + json_of_forest(n.children@, src) + seq![93u8, 44u8]
    }) + ("\"end_position\":").spec_bytes() + json_pos(n.end_row as nat, n.end_col as nat) + (
    ",\"start_position\":").spec_bytes() + json_pos(n.start_row as nat, n.start_col as nat) + (
    ",\"text\":").spec_bytes() + json_string(src.subrange(n.start_byte as int, n.end_byte as int))
        + (",\"type\":").spec_bytes() + json_string(n.kind@) + seq![125u8]
}

/// The parse nodes of `ns` as JSON values separated by commas.
pub open spec fn json_of_forest(ns: Seq<ParseNode>, src: Seq<u8>) -> Seq<u8>
    decreases ns,
{
    if ns.len() == 0 {
        Seq::<u8>::empty()
    } else if ns.len() == 1 {
        json_of_node(ns[0], src)
    } else {
        json_of_forest(ns.drop_last(), src) + seq![44u8] + json_of_node(ns.last(), src)
    }
}

/// A document node that mirrors a parse node serializes to the JSON object
/// of that parse node.
pub proof fn lemma_represents_json(d: DocNode, n: ParseNode, src: Seq<u8>)
    requires
        d.represents(n, src),
    ensures
        json_doc(d) == json_of_node(n, src),
    decreases n,
{
    match d.children {
        None => {}
        Some(cs) => {
            crate::doc::lemma_represents_forest_iff(cs@, n.children@, src);
            lemma_represents_json_forest(cs@, n.children@, src);
        }
    }
}

/// Forest form of `lemma_represents_json`.
pub proof fn lemma_represents_json_forest(ds: Seq<DocNode>, ns: Seq<ParseNode>, src: Seq<u8>)
    requires
        ds.len() == ns.len(),
        forall|i: int| 0 <= i < ns.len() ==> #[trigger] ds[i].represents(ns[i], src),
    ensures
        json_forest(ds) == json_of_forest(ns, src),
    decreases ns,
{
    if ns.len() == 1 {
        lemma_represents_json(ds[0], ns[0], src);
    } else if ns.len() > 1 {
        assert forall|i: int|
            0 <= i < ns.drop_last().len() implies #[trigger] ds.drop_last()[i].represents(
            ns.drop_last()[i],
            src,
        ) by {
            assert(ds.drop_last()[i] == ds[i]);
            assert(ns.drop_last()[i] == ns[i]);
        }
        lemma_represents_json_forest(ds.drop_last(), ns.drop_last(), src);
        assert(ds.last() == ds[ns.len() - 1]);
        lemma_represents_json(ds.last(), ns.last(), src);
    }
}

/// Converting one parse tree twice gives byte-identical JSON: any two
/// document trees that mirror the same parse tree serialize to the same
/// bytes.
pub proof fn lemma_conversion_deterministic(d1: DocNode, d2: DocNode, n: ParseNode, src: Seq<u8>)
    requires
        d1.represents(n, src),
        d2.represents(n, src),
    ensures
        json_doc(d1) == json_doc(d2),
{
    lemma_represents_json(d1, n, src);
    lemma_represents_json(d2, n, src);
}

/// Appends one byte.
fn push_byte(out: &mut Vec<u8>, b: u8)
    ensures
        final(out)@ == old(out)@ + seq![b],
{
    out.push(b);
    proof {
        assert(old(out)@.push(b) =~= old(out)@ + seq![b]);
    }
}

/// Appends a whole slice.
fn push_all(out: &mut Vec<u8>, s: &[u8])
    ensures
        final(out)@ == old(out)@ + s@,
{
    proof {
        assert(old(out)@ + s@.take(0) =~= old(out)@);
    }
    let mut i: usize = 0;
    while i < s.len()
        invariant
            0 <= i <= s@.len(),
            out@ == old(out)@ + s@.take(i as int),
        decreases s@.len() - i,
    {
        let b = s[i];
        out.push(b);
        proof {
            assert((old(out)@ + s@.take(i as int)).push(s@[i as int]) =~= old(out)@ + s@.take(
                i as int + 1,
            ));
        }
        i = i + 1;
    }
    proof {
        assert(s@.take(s@.len() as int) =~= s@);
    }
}

/// Appends the decimal digits of `n`.
fn push_dec(out: &mut Vec<u8>, n: usize)
    ensures
        final(out)@ == old(out)@ + dec_digits(n as nat),
    decreases n,
{
    if n < 10 {
        push_byte(out, 48 + (n as u8));
    } else {
        push_dec(out, n / 10);
        push_byte(out, 48 + ((n % 10) as u8));
        proof {
            assert((old(out)@ + dec_digits((n / 10) as nat)) + seq![(48 + (n as nat) % 10) as u8]
                =~= old(out)@ + (dec_digits((n / 10) as nat) + seq![(48 + (n as nat) % 10) as u8]));
        }
    }
}

/// Appends the escape of one byte.
fn push_escape_byte(out: &mut Vec<u8>, b: u8)
    ensures
        final(out)@ == old(out)@ + escape_byte(b),
{
    if b == 34 {
        push_byte(out, 92);
        push_byte(out, 34);
    } else if b == 92 {
        push_byte(out, 92);
        push_byte(out, 92);
    } else if b == 8 {
        push_byte(out, 92);
        push_byte(out, 98);
    } else if b == 9 {
        push_byte(out, 92);
        push_byte(out, 116);
    } else if b == 10 {
        push_byte(out, 92);
        push_byte(out, 110);
    } else if b == 12 {
        push_byte(out, 92);
        push_byte(out, 102);
    } else if b == 13 {
        push_byte(out, 92);
        push_byte(out, 114);
    } else if b < 32 {
        push_byte(out, 92);
        push_byte(out, 117);
        push_byte(out, 48);
        push_byte(out, 48);
        push_byte(out, if b / 16 < 10 { 48 + b / 16 } else { 87 + b / 16 });
        push_byte(out, if b % 16 < 10 { 48 + b % 16 } else { 87 + b % 16 });
    } else {
        push_byte(out, b);
    }
    proof {
        assert(out@ =~= old(out)@ + escape_byte(b));
    }
}

/// Appends the bytes of `s`, escaped.
fn push_escaped(out: &mut Vec<u8>, s: &[u8])
    ensures
        final(out)@ == old(out)@ + escape_bytes(s@),
{
    proof {
        assert(old(out)@ + escape_bytes(s@.take(0)) =~= old(out)@);
    }
    let mut i: usize = 0;
    while i < s.len()
        invariant
            0 <= i <= s@.len(),
            out@ == old(out)@ + escape_bytes(s@.take(i as int)),
        decreases s@.len() - i,
    {
        let b = s[i];
        push_escape_byte(out, b);
        proof {
            assert(s@.take(i as int + 1).drop_last() =~= s@.take(i as int));
            assert(s@.take(i as int + 1).last() == s@[i as int]);
            assert((old(out)@ + escape_bytes(s@.take(i as int))) + escape_byte(s@[i as int])
                =~= old(out)@ + escape_bytes(s@.take(i as int + 1)));
        }
        i = i + 1;
    }
    proof {
        assert(s@.take(s@.len() as int) =~= s@);
    }
}

/// Appends a JSON string literal holding the bytes of `s`.
fn push_json_string(out: &mut Vec<u8>, s: &[u8])
    ensures
        final(out)@ == old(out)@ + json_string(s@),
{
    push_byte(out, 34);
    push_escaped(out, s);
    push_byte(out, 34);
    proof {
        assert(out@ =~= old(out)@ + json_string(s@));
    }
}

/// Appends `[row,col]`.
fn push_pos(out: &mut Vec<u8>, row: usize, col: usize)
    ensures
        final(out)@ == old(out)@ + json_pos(row as nat, col as nat),
{
    push_byte(out, 91);
    push_dec(out, row);
    push_byte(out, 44);
    push_dec(out, col);
    push_byte(out, 93);
    proof {
        assert(out@ =~= old(out)@ + json_pos(row as nat, col as nat));
    }
}

/// Appends the JSON object of the document node `d`.
#[verifier::rlimit(50)]
fn push_doc(out: &mut Vec<u8>, d: &DocNode)
    ensures
        final(out)@ == old(out)@ + json_doc(*d),
    decreases *d,
{
    push_byte(out, 123);
    match &d.children {
        None => {}
        Some(cs) => {
            push_all(out, "\"children\":[".as_bytes());
            let ghost head: Seq<u8> = old(out)@ + seq![123u8] + ("\"children\":[").spec_bytes();
            proof {
                assert(out@ =~= head + json_forest(cs@.take(0)));
            }
            let mut i: usize = 0;
            while i < cs.len()
                invariant
                    0 <= i <= cs@.len(),
                    d.children == Some(*cs),
                    out@ == head + json_forest(cs@.take(i as int)),
                decreases cs@.len() - i,
            {
                if i > 0 {
                    push_byte(out, 44);
                }
                proof {
                    assert(decreases_to!(*d => d.children));
                    assert(decreases_to!(d.children => d.children->Some_0));
                    assert(decreases_to!(*cs => cs@));
                    assert(decreases_to!(cs@ => cs@[i as int]));
                }
                push_doc(out, &cs[i]);
                proof {
                    assert(cs@.take(i as int + 1).drop_last() =~= cs@.take(i as int));
                    assert(cs@.take(i as int + 1).last() == cs@[i as int]);
                    if i == 0 {
                        assert(out@ =~= head + json_forest(cs@.take(1)));
                    } else {
                        assert(out@ =~= head + json_forest(cs@.take(i as int + 1)));
                    }
                }
                i = i + 1;
            }
            proof {
                assert(cs@.take(cs@.len() as int) =~= cs@);
            }
            push_byte(out, 93);
            push_byte(out, 44);
        }
    }
    push_all(out, "\"end_position\":".as_bytes());
    push_pos(out, d.end_row, d.end_col);
    push_all(out, ",\"start_position\":".as_bytes());
    push_pos(out, d.start_row, d.start_col);
    push_all(out, ",\"text\":".as_bytes());
    push_json_string(out, d.text.as_slice());
    push_all(out, ",\"type\":".as_bytes());
    push_json_string(out, d.kind.as_slice());
    push_byte(out, 125);
    proof {
        assert(out@ =~= old(out)@ + json_doc(*d));
    }
}

/// Serializes the document node `d` as one compact JSON object.
pub fn doc_to_json(d: &DocNode) -> (r: Vec<u8>)
    ensures
        r@ == json_doc(*d),
{
    let mut out: Vec<u8> = Vec::new();
    push_doc(&mut out, d);
    proof {
        assert(out@ =~= json_doc(*d));
    }
    out
}

} // verus!
