//! The random source of the `RND` instruction.
use vstd::prelude::*;

use rand::rngs::ThreadRng;
use rand::Rng;

verus! {

#[verifier::external_type_specification]
#[verifier::external_body]
pub struct ExThreadRng(ThreadRng);

/// Relies on `rand::thread_rng`: a handle to the lazily seeded thread-local
/// generator.
#[verifier::external_body]
pub(crate) fn new_rng() -> (r: ThreadRng) {
    rand::thread_rng()
}

/// Relies on `rand::Rng::gen::<u8>` on a `ThreadRng`: a byte drawn from the
/// standard uniform distribution. Nothing is known of its value.
#[verifier::external_body]
pub(crate) fn random_byte(rng: &mut ThreadRng) -> (r: u8) {
    rng.gen::<u8>()
}

} // verus!
