//! Text comparison for the names and identifiers that requests carry.

use vstd::prelude::*;

verus! {

/// Whether two string slices hold the same characters.
///
/// Trusted: this is `==` on `str` from the standard library, which compares
/// the two slices byte for byte. Two valid UTF-8 slices have the same bytes
/// exactly when they have the same characters.
#[verifier::external_body]
pub(crate) fn same_text(a: &str, b: &str) -> (same: bool)
    ensures
        same == (a@ == b@),
{
    a == b
}

} // verus!
