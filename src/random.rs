use vstd::prelude::*;

use rand::rngs::ThreadRng;

verus! {

#[verifier::external_type_specification]
#[verifier::external_body]
pub struct ExThreadRng(ThreadRng);

/// Relies on rand::thread_rng: a handle to the calling thread's generator.
#[verifier::external_body]
pub(crate) fn thread_rng() -> (r: ThreadRng) {
    rand::thread_rng()
}

/// Relies on rand::RngCore::next_u32 for ThreadRng: the next word of the
/// generator. Any word may come back.
#[verifier::external_body]
pub(crate) fn next_word(rng: &mut ThreadRng) -> (r: u32) {
    rand::RngCore::next_u32(rng)
}

} // verus!
