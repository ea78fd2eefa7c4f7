//! The random source: a seeded generator behind trusted wrappers.
//!
//! To the verifier a draw is opaque: two draws with equal arguments may
//! differ, and every contract downstream states what holds of every
//! outcome. Sampling logic that consumes the draws is ordinary verified
//! code taking them as arguments.

use vstd::prelude::*;

use rand::Rng;
use rand::SeedableRng;

verus! {

#[verifier::external_type_specification]
#[verifier::external_body]
pub struct ExStdRng(rand::rngs::StdRng);

/// A deterministic pseudo-random generator, seeded at construction.
/// Distinct sources never share state, so concurrent samplers stay
/// independent.
pub struct RandomSource {
    rng: rand::rngs::StdRng,
}

impl RandomSource {
    /// Relies on rand's `StdRng::seed_from_u64`: builds a generator whose
    /// stream is a function of the seed alone.
    #[verifier::external_body]
    pub fn from_seed(seed: u64) -> RandomSource {
        RandomSource { rng: rand::rngs::StdRng::seed_from_u64(seed) }
    }

    /// Relies on rand's `Rng::gen_range`: returns a uniform sample in
    /// `[lo, hi)` and panics only on an empty range, which the
    /// precondition rules out.
    #[verifier::external_body]
    pub fn next_fp(&mut self, lo: i64, hi: i64) -> (r: i64)
        requires
            lo < hi,
        ensures
            lo <= r < hi,
    {
        self.rng.gen_range(lo..hi)
    }
}

} // verus!
