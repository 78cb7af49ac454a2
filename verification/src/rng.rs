//! Thin trusted boundary around the `rand` crate.
//!
//! Randomness is never assumed reproducible: every contract here states only
//! what holds of every possible outcome.

use vstd::prelude::*;

verus! {

/// Declares rand's thread-local generator type so that verified
/// signatures can carry it; the type stays opaque to the verifier.
#[verifier::external_type_specification]
#[verifier::external_body]
pub struct ExThreadRng(rand::rngs::ThreadRng);

/// Relies on rand::Rng::gen_range on the half-open range 0..n: the result is
/// drawn from that range, and the call panics only on an empty range, which
/// the precondition rules out.
#[verifier::external_body]
pub fn rng_below(rng: &mut rand::rngs::ThreadRng, n: u32) -> (r: u32)
    requires
        n > 0,
    ensures
        r < n,
{
    rand::Rng::gen_range(rng, 0..n)
}

} // verus!
