//! Candidate solutions ("chromosomes") and their distance from the target.

use crate::prng::Prng;
use crate::rate::Rate;
use vstd::arithmetic::mul::lemma_mul_inequality;
use vstd::prelude::*;

verus! {

/// Lowest byte the random generator draws (the space character).
pub const GENE_MIN: u8 = 32;

/// Highest byte the random generator draws (the letter `z`).
pub const GENE_MAX: u8 = 122;

/// Absolute distance between two byte values.
pub open spec fn abs_diff(a: u8, b: u8) -> nat {
    if a >= b {
        (a - b) as nat
    } else {
        (b - a) as nat
    }
}

/// Total cost of a candidate against a target of the same length:
/// the sum over all positions of the absolute byte distance.
pub open spec fn cost_of(code: Seq<u8>, target: Seq<u8>) -> nat
    recommends
        code.len() == target.len(),
    decreases code.len(),
{
    if code.len() == 0 {
        0
    } else {
        cost_of(code.drop_last(), target.drop_last()) + abs_diff(code.last(), target.last())
    }
}

/// The cost of a sequence never exceeds 255 per position.
pub proof fn lemma_cost_bound(code: Seq<u8>, target: Seq<u8>)
    requires
        code.len() == target.len(),
    ensures
        cost_of(code, target) <= 255 * code.len(),
    decreases code.len(),
{
    if code.len() > 0 {
        lemma_cost_bound(code.drop_last(), target.drop_last());
    }
}

/// Cost is symmetric in its two arguments.
pub proof fn lemma_cost_symmetric(a: Seq<u8>, b: Seq<u8>)
    requires
        a.len() == b.len(),
    ensures
        cost_of(a, b) == cost_of(b, a),
    decreases a.len(),
{
    if a.len() > 0 {
        lemma_cost_symmetric(a.drop_last(), b.drop_last());
    }
}

/// Cost is zero exactly when the two sequences are identical.
pub proof fn lemma_cost_zero_iff_equal(a: Seq<u8>, b: Seq<u8>)
    requires
        a.len() == b.len(),
    ensures
        cost_of(a, b) == 0 <==> a == b,
    decreases a.len(),
{
    if a.len() == 0 {
        assert(a =~= b);
    } else {
        lemma_cost_zero_iff_equal(a.drop_last(), b.drop_last());
        if cost_of(a, b) == 0 {
            assert(a =~= b) by {
                assert(a.drop_last() == b.drop_last());
                assert(forall|i: int|
                    0 <= i < a.len() - 1 ==> a[i] == a.drop_last()[i] && b[i] == b.drop_last()[i]);
            }
        }
        if a == b {
            assert(a.drop_last() =~= b.drop_last());
        }
    }
}

/// A sequence is at distance zero from itself.
pub proof fn lemma_cost_self_zero(a: Seq<u8>)
    ensures
        cost_of(a, a) == 0,
{
    lemma_cost_zero_iff_equal(a, a);
}

/// Extending both sequences by one byte adds that position's distance.
proof fn lemma_cost_step(code: Seq<u8>, target: Seq<u8>, i: int)
    requires
        code.len() == target.len(),
        0 <= i < code.len(),
    ensures
        cost_of(code.take(i + 1), target.take(i + 1)) == cost_of(code.take(i), target.take(i))
            + abs_diff(code[i], target[i]),
{
    assert(code.take(i + 1).drop_last() =~= code.take(i));
    assert(target.take(i + 1).drop_last() =~= target.take(i));
}

/// Cumulative absolute byte distance between a candidate and the target.
/// Returns 0 exactly when the two are identical.
pub fn cost_function(code: &Vec<u8>, solution: &Vec<u8>) -> (cost: u32)
    requires
        code@.len() == solution@.len(),
        solution@.len() * 255 <= u32::MAX,
    ensures
        cost == cost_of(code@, solution@),
{
    let mut cost: u32 = 0;
    let mut i: usize = 0;
    while i < solution.len()
        invariant
            i <= solution@.len(),
            code@.len() == solution@.len(),
            solution@.len() * 255 <= u32::MAX,
            cost == cost_of(code@.take(i as int), solution@.take(i as int)),
        decreases solution@.len() - i,
    {
        let a = code[i];
        let b = solution[i];
        let d: u32 = if a >= b {
            (a - b) as u32
        } else {
            (b - a) as u32
        };
        proof {
            lemma_cost_step(code@, solution@, i as int);
            assert(code@.take(i as int).len() == i);
            lemma_cost_bound(code@.take(i as int), solution@.take(i as int));
            lemma_mul_inequality(i + 1, solution@.len() as int, 255);
        }
        cost = cost + d;
        i = i + 1;
    }
    proof {
        assert(code@.take(i as int) =~= code@);
        assert(solution@.take(i as int) =~= solution@);
    }
    cost
}

/// An owned copy of a byte vector.
pub fn copy_bytes(v: &Vec<u8>) -> (r: Vec<u8>)
    ensures
        r@ == v@,
{
    let mut r: Vec<u8> = Vec::new();
    let mut i: usize = 0;
    while i < v.len()
        invariant
            i <= v@.len(),
            r@ == v@.take(i as int),
        decreases v@.len() - i,
    {
        r.push(v[i]);
        proof {
            assert(v@.take(i as int).push(v@[i as int]) =~= v@.take(i + 1));
        }
        i = i + 1;
    }
    proof {
        assert(v@.take(i as int) =~= v@);
    }
    r
}

/// Whether every byte lies in the generator's range.
pub open spec fn all_in_gene_range(s: Seq<u8>) -> bool {
    forall|i: int| 0 <= i < s.len() ==> GENE_MIN <= #[trigger] s[i] <= GENE_MAX
}

/// A random code of the given length, every byte drawn uniformly and
/// independently from the printable range.
pub fn rand_string(size: usize, rng: &mut Prng) -> (r: Vec<u8>)
    ensures
        r@.len() == size,
        all_in_gene_range(r@),
{
    let mut r: Vec<u8> = Vec::new();
    let mut i: usize = 0;
    while i < size
        invariant
            i <= size,
            r@.len() == i,
            all_in_gene_range(r@),
        decreases size - i,
    {
        r.push(rand_gene(rng));
        i = i + 1;
    }
    r
}

/// One random byte from the printable range.
fn rand_gene(rng: &mut Prng) -> (g: u8)
    ensures
        GENE_MIN <= g <= GENE_MAX,
{
    let span: u32 = (GENE_MAX - GENE_MIN) as u32 + 1;
    let d = rng.below(span);
    GENE_MIN + (d as u8)
}

/// The ghost value of a chromosome: its code, its cached cost, and the
/// target it is measured against.
#[verifier::ext_equal]
pub ghost struct ChromosomeView {
    pub code: Seq<u8>,
    pub cost: u32,
    pub solution: Seq<u8>,
}

impl ChromosomeView {
    /// The code has the target's length, and the cached cost is exactly
    /// the code's cost against the target; the length bound keeps that
    /// cost inside `u32`.
    pub open spec fn wf(self) -> bool {
        &&& self.code.len() == self.solution.len()
        &&& self.solution.len() * 255 <= u32::MAX
        &&& self.cost == cost_of(self.code, self.solution)
    }
}

/// A candidate solution: a byte string of the target's length together
/// with its cached cost against that target.
#[derive(Debug)]
pub struct Chromosome {
    pub code: Vec<u8>,
    pub cost_score: u32,
    pub solution: Vec<u8>,
}

impl View for Chromosome {
    type V = ChromosomeView;

    open spec fn view(&self) -> ChromosomeView {
        ChromosomeView { code: self.code@, cost: self.cost_score, solution: self.solution@ }
    }
}

impl Clone for Chromosome {
    /// A clone carries the same code, cost, and target.
    fn clone(&self) -> (r: Self)
        ensures
            r@ == self@,
    {
        Chromosome {
            code: copy_bytes(&self.code),
            cost_score: self.cost_score,
            solution: copy_bytes(&self.solution),
        }
    }
}

/// The mutation relation: the new code is the old one, or the old one
/// with a single position replaced by a byte from the generator's range.
pub open spec fn point_mutation(before: Seq<u8>, after: Seq<u8>) -> bool {
    after == before || exists|i: int, v: u8|
        0 <= i < before.len() && GENE_MIN <= v <= GENE_MAX && after == before.update(i, v)
}

impl Chromosome {
    /// Shorthand for the well-formedness of this chromosome's ghost value.
    pub open spec fn wf(self) -> bool {
        self@.wf()
    }

    /// A fresh random candidate for the given target: a random code of the
    /// target's length with its cost computed against it.
    pub fn new(solution: Vec<u8>, rng: &mut Prng) -> (c: Chromosome)
        requires
            solution@.len() * 255 <= u32::MAX,
        ensures
            c.wf(),
            c.solution@ == solution@,
            c.code@.len() == solution@.len(),
            all_in_gene_range(c.code@),
    {
        let code = rand_string(solution.len(), rng);
        let cost_score = cost_function(&code, &solution);
        Chromosome { code, cost_score, solution }
    }

    /// With probability `mutation_rate`, replaces one random position with
    /// a fresh random byte and recomputes the cost; otherwise leaves the
    /// chromosome unchanged. Returns a copy of the outcome.
    pub fn mutate(&mut self, mutation_rate: Rate, rng: &mut Prng) -> (r: Chromosome)
        requires
            old(self).wf(),
            old(self).code@.len() > 0,
            mutation_rate.wf(),
        ensures
            final(self).wf(),
            final(self).solution@ == old(self).solution@,
            final(self).code@.len() == old(self).code@.len(),
            point_mutation(old(self).code@, final(self).code@),
            r@ == final(self)@,
            mutation_rate.num == 0 ==> final(self)@ == old(self)@ && r@ == old(self)@,
            all_in_gene_range(old(self).code@) ==> all_in_gene_range(final(self).code@),
    {
        if mutation_rate.sample(rng) {
            proof {
                lemma_mul_inequality(1, 255, old(self).code@.len() as int);
            }
            let len32: u32 = self.code.len() as u32;
            let idx = rng.below(len32) as usize;
            let v = rand_gene(rng);
            self.code.set(idx, v);
            self.cost_score = cost_function(&self.code, &self.solution);
            proof {
                assert(self.code@ == old(self).code@.update(idx as int, v));
                assert(point_mutation(old(self).code@, self.code@));
                if all_in_gene_range(old(self).code@) {
                    assert forall|j: int|
                        0 <= j < self.code@.len() implies GENE_MIN <= #[trigger] self.code@[j]
                        <= GENE_MAX by {
                        if j != idx {
                            assert(self.code@[j] == old(self).code@[j]);
                        }
                    }
                }
            }
        }
        self.clone()
    }
}

} // verus!
