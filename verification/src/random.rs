//! Random values, drawn from the generator of the running thread.

use vstd::prelude::*;
use rand::Rng;

verus! {

/// `rand::random` for 32 bytes. Nothing is known of what it draws.
#[verifier::external_body]
pub(crate) fn random_bytes() -> (bytes: [u8; 32]) {
    rand::random::<[u8; 32]>()
}

/// `Rng::gen_range` on `0..bound` for the thread's generator: some number
/// below the bound. It panics on an empty range, which `requires` rules out.
#[verifier::external_body]
pub(crate) fn random_below(bound: u64) -> (r: u64)
    requires
        bound > 0,
    ensures
        r < bound,
{
    rand::thread_rng().gen_range(0..bound)
}

} // verus!
