//! The one randomness source of the laboratory.

use vstd::prelude::*;

verus! {

/// Relies on rand::random::<u32>: one draw from the thread-local generator,
/// uniform over all 32-bit values. Nothing can be promised of the outcome.
#[verifier::external_body]
pub(crate) fn random_u32() -> u32 {
    rand::random::<u32>()
}

} // verus!
