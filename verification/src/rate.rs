//! Probabilities and fractions held exactly as integer ratios, so that
//! the mutation, crossover, and kill rates need no floating point.

use crate::prng::Prng;
use vstd::arithmetic::div_mod::{
    lemma_div_is_ordered, lemma_div_multiples_vanish, lemma_multiply_divide_lt,
};
use vstd::arithmetic::mul::{lemma_mul_inequality, lemma_mul_strict_inequality};
use vstd::prelude::*;

verus! {

/// A rate in `[0, 1]`, held exactly as the ratio `num / den`.
#[derive(Clone, Copy, PartialEq, Eq, Structural, Debug)]
pub struct Rate {
    pub num: u32,
    pub den: u32,
}

impl Rate {
    /// A valid rate has a positive denominator and is at most 1.
    pub open spec fn wf(self) -> bool {
        0 < self.den && self.num <= self.den
    }

    /// Builds `num / den`; rejects a zero denominator and any ratio above 1.
    pub fn new(num: u32, den: u32) -> (r: Option<Rate>)
        ensures
            r is Some <==> (0 < den && num <= den),
            r matches Some(rate) ==> rate == (Rate { num, den }) && rate.wf(),
    {
        if den > 0 && num <= den {
            Some(Rate { num, den })
        } else {
            None
        }
    }

    /// The rate that never triggers.
    pub fn zero() -> (r: Rate)
        ensures
            r == (Rate { num: 0u32, den: 1u32 }) && r.wf(),
    {
        Rate { num: 0, den: 1 }
    }

    /// The rate that always triggers.
    pub fn one() -> (r: Rate)
        ensures
            r == (Rate { num: 1u32, den: 1u32 }) && r.wf(),
    {
        Rate { num: 1, den: 1 }
    }

    /// `floor(n * num / den)`: the whole part of this fraction of `n`.
    pub open spec fn scaled_spec(self, n: nat) -> nat {
        n * (self.num as nat) / (self.den as nat)
    }

    /// The scaled part of `n` never exceeds `n`.
    pub proof fn lemma_scaled_le(self, n: nat)
        requires
            self.wf(),
        ensures
            self.scaled_spec(n) <= n,
    {
        lemma_mul_inequality(self.num as int, self.den as int, n as int);
        lemma_div_is_ordered(
            (n as int) * (self.num as int),
            (n as int) * (self.den as int),
            self.den as int,
        );
        lemma_div_multiples_vanish(n as int, self.den as int);
    }

    /// A rate strictly below 1 scales any positive `n` to strictly less
    /// than `n`.
    pub proof fn lemma_scaled_lt(self, n: nat)
        requires
            self.wf(),
            self.num < self.den,
            n >= 1,
        ensures
            self.scaled_spec(n) < n,
    {
        lemma_mul_strict_inequality(self.num as int, self.den as int, n as int);
        lemma_multiply_divide_lt((n as int) * (self.num as int), self.den as int, n as int);
    }

    /// The rate of exactly 1 scales any `n` to `n` itself.
    pub proof fn lemma_scaled_full(self, n: nat)
        requires
            self.wf(),
            self.num == self.den,
        ensures
            self.scaled_spec(n) == n,
    {
        lemma_div_multiples_vanish(n as int, self.den as int);
    }

    /// Computes `floor(n * num / den)` exactly, with the product widened
    /// so it cannot overflow.
    pub fn scaled(&self, n: usize) -> (k: usize)
        requires
            self.wf(),
        ensures
            k == self.scaled_spec(n as nat),
            k <= n,
    {
        proof {
            self.lemma_scaled_le(n as nat);
            lemma_mul_inequality(n as int, u64::MAX as int, self.num as int);
            lemma_mul_inequality(self.num as int, u32::MAX as int, u64::MAX as int);
        }
        let p: u128 = (n as u128) * (self.num as u128);
        let k: u128 = p / (self.den as u128);
        k as usize
    }

    /// Draws once from the shared source; the draw triggers when it falls
    /// below `num`. A rate of 1 always triggers; a rate of 0 never does.
    pub fn sample(&self, rng: &mut Prng) -> (b: bool)
        requires
            self.wf(),
        ensures
            self.num == self.den ==> b,
            self.num == 0 ==> !b,
    {
        let d = rng.below(self.den);
        d < self.num
    }
}

} // verus!
