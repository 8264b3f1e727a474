//! Unicode case mapping, from the standard library (`str::to_lowercase`,
//! `str::to_uppercase`), whose results are named rather than restated.
use vstd::prelude::*;

verus! {

/// `str::to_lowercase`: the text lowercased by Unicode's rules.
pub uninterp spec fn unicode_lowercase(s: Seq<char>) -> Seq<char>;

/// `str::to_uppercase`: the text uppercased by Unicode's rules.
pub uninterp spec fn unicode_uppercase(s: Seq<char>) -> Seq<char>;

pub open spec fn is_ascii_upper(c: char) -> bool {
    'A' <= c && c <= 'Z'
}

/// `str::to_lowercase`. The contract claims that the result is the named one, and two
/// short facts of Unicode's lowercase mapping: the result holds no ASCII capital letter
/// (each maps to its small letter, and no mapping yields one), and text made only of ASCII
/// characters other than capitals, which have no lowercase mapping, comes back unchanged.
#[verifier::external_body]
pub(crate) fn to_lowercase(s: &str) -> (r: String)
    ensures
        r@ == unicode_lowercase(s@),
        forall|i: int| 0 <= i < r@.len() ==> !is_ascii_upper(#[trigger] r@[i]),
        (forall|i: int| 0 <= i < s@.len() ==> (#[trigger] s@[i]) <= '\u{7f}' && !is_ascii_upper(s@[i])) ==> r@ == s@,
{
    s.to_lowercase()
}

/// `str::to_uppercase`. The contract claims only that the result is the named one.
#[verifier::external_body]
pub(crate) fn to_uppercase(s: &str) -> (r: String)
    ensures
        r@ == unicode_uppercase(s@),
{
    s.to_uppercase()
}

} // verus!
