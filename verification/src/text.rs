//! Small string helpers: exact equality and case folding.

use vstd::prelude::*;

verus! {

/// Exact string equality, decided over the character sequences.
pub fn str_eq(a: &str, b: &str) -> (r: bool)
    ensures
        r == (a@ == b@),
{
    let sa: String = a.to_owned();
    let sb: String = b.to_owned();
    sa == sb
}

/// The uppercase folding of a character sequence, as `str::to_uppercase`
/// computes it. Addresses are compared case-insensitively by comparing
/// their foldings.
pub uninterp spec fn upper_of(s: Seq<char>) -> Seq<char>;

/// Relies on `str::to_uppercase`: its result depends on the characters of
/// the input alone, so it is named by `upper_of`.
#[verifier::external_body]
pub(crate) fn to_upper(s: &str) -> (r: String)
    ensures
        r@ == upper_of(s@),
{
    s.to_uppercase()
}

/// Whether two strings are equal up to case, the comparison the transaction
/// filter uses.
pub open spec fn eq_ignore_case(a: Seq<char>, b: Seq<char>) -> bool {
    upper_of(a) == upper_of(b)
}

/// Decides `eq_ignore_case` by folding both sides.
pub fn str_eq_ignore_case(a: &str, b: &str) -> (r: bool)
    ensures
        r == eq_ignore_case(a@, b@),
{
    let ua: String = to_upper(a);
    let ub: String = to_upper(b);
    ua == ub
}

} // verus!
