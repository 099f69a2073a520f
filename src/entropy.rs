//! The source of random bytes for the `Cxkk` instruction.
use rand::RngCore;
use vstd::prelude::*;

verus! {

/// Relies on `rand::thread_rng` and `RngCore::next_u32`: a byte drawn from the
/// thread-local generator. Nothing is promised of its value.
#[verifier::external_body]
pub(crate) fn random_byte() -> (r: u8) {
    rand::thread_rng().next_u32() as u8
}

} // verus!
