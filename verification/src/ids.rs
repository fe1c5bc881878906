//! Session identifiers: generation and comparison.

use vstd::prelude::*;

verus! {

/// Relies on uuid::Uuid::new_v4 and its hyphenated display form: the result
/// is a freshly drawn random identifier. Randomness promises nothing of the
/// value, so callers must check for collisions themselves.
#[verifier::external_body]
pub(crate) fn fresh_session_id() -> String {
    uuid::Uuid::new_v4().to_string()
}

/// Relies on str's PartialEq: two string slices compare equal exactly when
/// they hold the same text.
#[verifier::external_body]
pub(crate) fn str_eq(a: &str, b: &str) -> (r: bool)
    ensures
        r == (a@ == b@),
{
    a == b
}

} // verus!
