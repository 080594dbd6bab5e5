//! Identifiers of people.

use vstd::prelude::*;

verus! {

/// Mints an identifier with `uuid::Uuid::now_v7` and hands out its 128 bits
/// as `uuid::Uuid::as_u128` packs them. The value comes from the clock and
/// from random bits, so nothing is claimed of it.
#[verifier::external_body]
pub(crate) fn fresh_identifier() -> (id: u128) {
    uuid::Uuid::now_v7().as_u128()
}

} // verus!
