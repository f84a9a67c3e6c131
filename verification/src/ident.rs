//! Generation of fresh session identities.

use vstd::prelude::*;

verus! {

/// Relies on `uuid::Uuid::new_v4`: a freshly generated random (version 4)
/// identifier, carried as its 128-bit value. The result is random, so nothing
/// is promised of it; callers state what holds whatever value comes back.
#[verifier::external_body]
pub(crate) fn fresh_identity() -> u128 {
    uuid::Uuid::new_v4().as_u128()
}

} // verus!
