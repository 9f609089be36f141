//! Fresh identifiers for issues and subscribers.

use vstd::prelude::*;

verus! {

/// Relies on `uuid::Uuid::new_v4`: a freshly generated random version-4
/// UUID, handed back as its 128-bit value. Nothing is assumed of the value —
/// the store's uniqueness checks handle a colliding id like any other
/// constraint violation.
#[verifier::external_body]
pub(crate) fn fresh_id() -> u128 {
    uuid::Uuid::new_v4().as_u128()
}

} // verus!
