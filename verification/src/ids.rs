//! Fresh identifiers for rows the core creates.

use vstd::prelude::*;

verus! {

/// Relies on `uuid::Uuid::new_v4` and its `Display` rendering: a random
/// version-4 UUID formatted as the standard 36-character hyphenated form.
/// Nothing is assumed about the value beyond its length.
#[verifier::external_body]
pub(crate) fn fresh_id() -> (r: String)
    ensures
        r@.len() == 36,
{
    uuid::Uuid::new_v4().to_string()
}

} // verus!
