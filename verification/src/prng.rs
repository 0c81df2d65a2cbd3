//! The single pseudorandom source threaded through the generator,
//! mutation, and crossover operators.

use vstd::prelude::*;

verus! {

#[verifier::external_type_specification]
#[verifier::external_body]
pub struct ExStdRng(rand::rngs::StdRng);

/// A seeded pseudorandom source. Seeding it explicitly makes every run
/// reproducible, which the tests rely on.
pub struct Prng {
    inner: rand::rngs::StdRng,
}

impl Prng {
    /// Relies on rand's `SeedableRng::seed_from_u64`: builds a generator
    /// deterministically from a 64-bit seed.
    #[verifier::external_body]
    pub fn from_seed(seed: u64) -> Prng {
        Prng { inner: <rand::rngs::StdRng as rand::SeedableRng>::seed_from_u64(seed) }
    }

    /// Relies on rand's `RngExt::random_range`: a draw from the non-empty
    /// range `0..bound` is strictly below `bound`.
    #[verifier::external_body]
    pub(crate) fn below(&mut self, bound: u32) -> (r: u32)
        requires
            bound > 0,
        ensures
            r < bound,
    {
        rand::RngExt::random_range(&mut self.inner, 0..bound)
    }
}

} // verus!
