//! The library's only source of randomness: the thread-local generator of the
//! `rand` crate, behind a trusted wrapper. Everything that consumes a random
//! value takes it as a plain index, so the logic is verified for every
//! possible draw.

use vstd::prelude::*;

verus! {

/// The thread-local random number generator of the `rand` crate, opaque to
/// the verifier.
#[verifier::external_type_specification]
#[verifier::external_body]
pub struct ExThreadRng(rand::rngs::ThreadRng);

/// Relies on rand's `RngExt::random_range`: the result of sampling the range
/// `0..n` lies inside it. The call panics only on an empty range, which the
/// precondition rules out. Nothing more is assumed: the draw is random, so
/// whatever callers prove must hold for every value below `n`.
#[verifier::external_body]
pub(crate) fn rand_index(rng: &mut rand::rngs::ThreadRng, n: usize) -> (r: usize)
    requires
        1 <= n,
    ensures
        r < n,
{
    rand::RngExt::random_range(rng, 0..n)
}

} // verus!
