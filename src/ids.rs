//! Identifiers for track segments and cars.
use vstd::prelude::*;

verus! {

/// Relies on uuid's `Uuid::new_v4` and `Uuid::as_u128`: a random 128-bit
/// identifier. Nothing is promised of its value.
#[verifier::external_body]
pub(crate) fn new_id() -> (r: u128) {
    uuid::Uuid::new_v4().as_u128()
}

} // verus!
