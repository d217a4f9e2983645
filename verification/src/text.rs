//! Small helpers over `str` and `String` used throughout the crate.

use vstd::prelude::*;

verus! {

/// Relies on `str`'s `PartialEq`: two string slices compare equal exactly
/// when their character sequences are equal.
#[verifier::external_body]
pub fn str_eq(a: &str, b: &str) -> (r: bool)
    ensures
        r == (a@ == b@),
{
    a == b
}

/// Copies a string slice into an owned `String`.
pub fn str_to_string(s: &str) -> (r: String)
    ensures
        r@ == s@,
{
    s.to_owned()
}

} // verus!
