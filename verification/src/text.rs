//! Comparison of string slices.

use vstd::prelude::*;

verus! {

/// `==` on `str`: two string slices are equal exactly when they hold the
/// same characters. Taken on trust from the standard library.
#[verifier::external_body]
pub(crate) fn same_text(a: &str, b: &str) -> (r: bool)
    ensures
        r == (a@ == b@),
{
    a == b
}

} // verus!
