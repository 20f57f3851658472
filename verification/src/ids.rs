//! Fresh message ids.
use vstd::prelude::*;

verus! {

/// `uuid::Uuid::new_v4`: a random version-4 id, as its 128-bit value.
/// The value comes from a random source, so nothing is stated of it.
#[verifier::external_body]
pub(crate) fn fresh_id() -> u128 {
    uuid::Uuid::new_v4().as_u128()
}

} // verus!
