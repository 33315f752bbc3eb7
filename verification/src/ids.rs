//! Fresh identifiers for plan items and conflict groups.

use vstd::prelude::*;

verus! {

/// `uuid::Uuid::new_v4` as its 128-bit value: a random identifier. Nothing is stated of it,
/// as it depends on chance alone.
#[verifier::external_body]
pub(crate) fn new_id() -> u128 {
    uuid::Uuid::new_v4().as_u128()
}

} // verus!
