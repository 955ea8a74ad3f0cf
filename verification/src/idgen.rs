//! Fresh random identifiers for server-assigned ids.

use vstd::prelude::*;

verus! {

/// Relies on `uuid::Uuid::new_v4` and the `Display` impl of `Uuid`, which
/// renders the hyphenated form: a fresh random identifier of exactly 36
/// characters. Nothing more is promised of a random value.
#[verifier::external_body]
pub(crate) fn fresh_uuid() -> (r: String)
    ensures
        r@.len() == 36,
{
    uuid::Uuid::new_v4().to_string()
}

} // verus!
