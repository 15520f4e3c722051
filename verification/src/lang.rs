use vstd::prelude::*;
use vstd::string::StringSliceAdditionalSpecFns;

verus! {

/// The languages whose grammars are compiled into this crate, each selected
/// by a case-sensitive identifier.
#[derive(Clone, Copy, PartialEq, Eq, Structural, Debug)]
pub enum Lang {
    Java,
    Python,
    Rust,
    Sql,
    Bash,
    Js,
    Ts,
    Tsx,
    Go,
    C,
    Lua,
    Html,
}

/// The language whose identifier is `id`, if any. There is no default and
/// no detection: an unknown identifier maps to `None`.
pub open spec fn language_of_id(id: Seq<u8>) -> Option<Lang> {
    if id == ("java").spec_bytes() {
        Some(Lang::Java)
    } else if id == ("python").spec_bytes() {
        Some(Lang::Python)
    } else if id == ("rust").spec_bytes() {
        Some(Lang::Rust)
    } else if id == ("sql").spec_bytes() {
        Some(Lang::Sql)
    } else if id == ("bash").spec_bytes() {
        Some(Lang::Bash)
    } else if id == ("js").spec_bytes() {
        Some(Lang::Js)
    } else if id == ("ts").spec_bytes() {
        Some(Lang::Ts)
    } else if id == ("tsx").spec_bytes() {
        Some(Lang::Tsx)
    } else if id == ("go").spec_bytes() {
        Some(Lang::Go)
    } else if id == ("c").spec_bytes() {
        Some(Lang::C)
    } else if id == ("lua").spec_bytes() {
        Some(Lang::Lua)
    } else if id == ("html").spec_bytes() {
        Some(Lang::Html)
    } else {
        None
    }
}

/// Decides whether two byte slices hold the same bytes.
fn bytes_eq(a: &[u8], b: &[u8]) -> (r: bool)
    ensures
        r == (a@ == b@),
{
    if a.len() != b.len() {
        return false;
    }
    let mut i: usize = 0;
    while i < a.len()
        invariant
            a@.len() == b@.len(),
            0 <= i <= a@.len(),
            forall|j: int| 0 <= j < i ==> a@[j] == b@[j],
        decreases a@.len() - i,
    {
        if a[i] != b[i] {
            return false;
        }
        i = i + 1;
    }
    proof {
        assert(a@ =~= b@);
    }
    true
}

/// Maps a case-sensitive language identifier to its `Lang`.
pub fn language_from_str(s: &str) -> (r: Option<Lang>)
    ensures
        r == language_of_id(s.spec_bytes()),
{
    let b = s.as_bytes();
    if bytes_eq(b, ("java").as_bytes()) {
        Some(Lang::Java)
    } else if bytes_eq(b, ("python").as_bytes()) {
        Some(Lang::Python)
    } else if bytes_eq(b, ("rust").as_bytes()) {
        Some(Lang::Rust)
    } else if bytes_eq(b, ("sql").as_bytes()) {
        Some(Lang::Sql)
    } else if bytes_eq(b, ("bash").as_bytes()) {
        Some(Lang::Bash)
    } else if bytes_eq(b, ("js").as_bytes()) {
        Some(Lang::Js)
    } else if bytes_eq(b, ("ts").as_bytes()) {
        Some(Lang::Ts)
    } else if bytes_eq(b, ("tsx").as_bytes()) {
        Some(Lang::Tsx)
    } else if bytes_eq(b, ("go").as_bytes()) {
        Some(Lang::Go)
    } else if bytes_eq(b, ("c").as_bytes()) {
        Some(Lang::C)
    } else if bytes_eq(b, ("lua").as_bytes()) {
        Some(Lang::Lua)
    } else if bytes_eq(b, ("html").as_bytes()) {
        Some(Lang::Html)
    } else {
        None
    }
}

} // verus!
