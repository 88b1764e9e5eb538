//! Trusted boundary to the random number generator.
//!
//! The simulation uses one explicitly seeded generator, constructed at
//! initialization and threaded through the emission controller, so a run is
//! reproducible from its seed.  Nothing is assumed of the drawn values
//! beyond their range.

use vstd::prelude::*;

verus! {

#[verifier::external_type_specification]
#[verifier::external_body]
pub struct ExStdRng(rand::rngs::StdRng);

/// Relies on rand's `SeedableRng::seed_from_u64`: constructs a generator
/// deterministically from the seed; it never fails.
#[verifier::external_body]
pub(crate) fn rng_from_seed(seed: u64) -> rand::rngs::StdRng {
    <rand::rngs::StdRng as rand::SeedableRng>::seed_from_u64(seed)
}

/// Relies on rand's `Rng::gen_range` over the inclusive range `lo..=hi`:
/// the sample lies within the range, and the call panics only on an empty
/// range, which the precondition excludes.  Nothing else is assumed of the
/// outcome.
#[verifier::external_body]
pub(crate) fn rng_range(rng: &mut rand::rngs::StdRng, lo: i64, hi: i64) -> (r: i64)
    requires
        lo <= hi,
    ensures
        lo <= r <= hi,
{
    rand::Rng::gen_range(rng, lo..=hi)
}

} // verus!
