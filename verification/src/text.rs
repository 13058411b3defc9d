//! Small verified string utilities: concatenation and prefix handling for
//! composite menu-item identifiers.

use vstd::prelude::*;
use vstd::string::StrSliceExecFns;
use vstd::string::StringExecFns;

verus! {

/// `p` is an initial segment of `s`.
pub open spec fn is_prefix(p: Seq<char>, s: Seq<char>) -> bool {
    p.len() <= s.len() && s.take(p.len() as int) == p
}

/// `p` is an initial segment of `s` and a non-empty remainder follows it.
pub open spec fn is_strict_prefix(p: Seq<char>, s: Seq<char>) -> bool {
    p.len() < s.len() && s.take(p.len() as int) == p
}

/// Character-for-character equality of two string slices.
pub fn str_eq(a: &str, b: &str) -> (r: bool)
    ensures
        r == (a@ == b@),
{
    let aa: String = a.to_owned();
    let bb: String = b.to_owned();
    aa == bb
}

/// The concatenation `prefix` + `suffix`, as one owned string.
pub fn concat_str(prefix: &str, suffix: &str) -> (r: String)
    ensures
        r@ == prefix@ + suffix@,
{
    let s = String::from_str(prefix);
    s.concat(suffix)
}

/// If `p` is a strict prefix of `s`, the (non-empty) remainder of `s`
/// after `p`; otherwise nothing. An exact match (empty remainder) is
/// rejected: a composite identifier with an empty payload is malformed.
pub fn strip_strict_prefix(s: &str, p: &str) -> (r: Option<String>)
    ensures
        r is Some <==> is_strict_prefix(p@, s@),
        r matches Some(rest) ==> rest@ == s@.skip(p@.len() as int),
{
    let sl = s.unicode_len();
    let pl = p.unicode_len();
    if pl < sl {
        let head = s.substring_char(0, pl);
        if str_eq(head, p) {
            let rest = s.substring_char(pl, sl);
            Some(String::from_str(rest))
        } else {
            None
        }
    } else {
        None
    }
}

} // verus!
