//! Seeded randomness for the Monte Carlo trials, behind trusted wrappers:
//! the driver draws bounded integers from a deterministic, seeded generator.

use vstd::prelude::*;
use rand::rngs::StdRng;

verus! {

#[verifier::external_type_specification]
#[verifier::external_body]
pub struct ExStdRng(StdRng);

/// Relies on rand's `SeedableRng::seed_from_u64` for `StdRng`: builds a
/// generator whose stream is a function of the seed word alone.
#[verifier::external_body]
pub(crate) fn rng_from_seed(seed: u64) -> (rng: StdRng) {
    <StdRng as rand::SeedableRng>::seed_from_u64(seed)
}

/// Relies on rand's `RngExt::random_range` over `0..bound`: a uniform value
/// below the bound, which is all that is promised of any one draw.
#[verifier::external_body]
pub(crate) fn rng_below(rng: &mut StdRng, bound: u64) -> (r: u64)
    requires
        bound >= 1,
    ensures
        r < bound,
{
    rand::RngExt::random_range(rng, 0..bound)
}

} // verus!
