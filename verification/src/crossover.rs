//! The crossover operator: splice two parents at a random index, or fall
//! back to the fitter parent.

use crate::chromosome::{all_in_gene_range, cost_function, copy_bytes, Chromosome, GENE_MAX, GENE_MIN};
use crate::prng::Prng;
use crate::rate::Rate;
use vstd::arithmetic::mul::lemma_mul_inequality;
use vstd::prelude::*;

verus! {

/// The spliced code: the first `k` bytes of `a` followed by the bytes of
/// `b` from position `k` on.
pub open spec fn splice_spec(a: Seq<u8>, b: Seq<u8>, k: int) -> Seq<u8> {
    a.take(k) + b.skip(k)
}

/// Builds the child of two parents split at index `k`: the first `k`
/// bytes come from `a`, the rest from `b`, and the child's cost is
/// computed against the shared target.
pub fn splice(a: &Chromosome, b: &Chromosome, k: usize) -> (child: Chromosome)
    requires
        a.wf(),
        b.wf(),
        a.solution@ == b.solution@,
        k <= a.code@.len(),
    ensures
        child.wf(),
        child.solution@ == a.solution@,
        child.code@ == splice_spec(a.code@, b.code@, k as int),
        forall|i: int| 0 <= i < k ==> child.code@[i] == a.code@[i],
        forall|i: int| k <= i < a.code@.len() ==> child.code@[i] == b.code@[i],
        all_in_gene_range(a.code@) && all_in_gene_range(b.code@) ==> all_in_gene_range(
            child.code@,
        ),
{
    let mut code: Vec<u8> = Vec::new();
    let mut i: usize = 0;
    while i < k
        invariant
            i <= k,
            k <= a.code@.len(),
            code@ == a.code@.take(i as int),
        decreases k - i,
    {
        code.push(a.code[i]);
        proof {
            assert(a.code@.take(i as int).push(a.code@[i as int]) =~= a.code@.take(i + 1));
        }
        i = i + 1;
    }
    let len = b.code.len();
    while i < len
        invariant
            k <= i <= len,
            len == b.code@.len(),
            k <= a.code@.len(),
            code@ == a.code@.take(k as int) + b.code@.subrange(k as int, i as int),
        decreases len - i,
    {
        code.push(b.code[i]);
        proof {
            assert((a.code@.take(k as int) + b.code@.subrange(k as int, i as int)).push(
                b.code@[i as int]) =~= a.code@.take(k as int) + b.code@.subrange(
                k as int,
                i + 1,
            ));
        }
        i = i + 1;
    }
    proof {
        assert(b.code@.subrange(k as int, len as int) =~= b.code@.skip(k as int));
        assert(code@.len() == a.solution@.len());
        if all_in_gene_range(a.code@) && all_in_gene_range(b.code@) {
            assert forall|j: int|
                0 <= j < code@.len() implies GENE_MIN <= #[trigger] code@[j] <= GENE_MAX by {
                if j < k {
                    assert(code@[j] == a.code@[j]);
                } else {
                    assert(code@[j] == b.code@[j]);
                }
            }
        }
    }
    let cost_score = cost_function(&code, &a.solution);
    Chromosome { code, cost_score, solution: copy_bytes(&a.solution) }
}

/// A copy of whichever parent has the strictly lower cost; ties go to `b`.
pub fn fitter_parent(a: &Chromosome, b: &Chromosome) -> (r: Chromosome)
    ensures
        a.cost_score < b.cost_score ==> r@ == a@,
        a.cost_score >= b.cost_score ==> r@ == b@,
{
    if a.cost_score < b.cost_score {
        a.clone()
    } else {
        b.clone()
    }
}

/// With probability `crossover_rate`, splices the two parents at a random
/// index in `[0, L)`; otherwise copies the parent with the strictly lower
/// cost (ties go to `chrome2`). The child is scored against `solution`.
pub fn crossover(
    chrome1: &Chromosome,
    chrome2: &Chromosome,
    crossover_rate: Rate,
    solution: &Vec<u8>,
    rng: &mut Prng,
) -> (child: Chromosome)
    requires
        chrome1.wf(),
        chrome2.wf(),
        chrome1.solution@ == solution@,
        chrome2.solution@ == solution@,
        solution@.len() > 0,
        crossover_rate.wf(),
    ensures
        child.wf(),
        child.solution@ == solution@,
        (exists|k: int|
            0 <= k < solution@.len() && child.code@ == splice_spec(
                chrome1.code@,
                chrome2.code@,
                k,
            )) || (chrome1.cost_score < chrome2.cost_score && child@ == chrome1@) || (
        chrome1.cost_score >= chrome2.cost_score && child@ == chrome2@),
        all_in_gene_range(chrome1.code@) && all_in_gene_range(chrome2.code@)
            ==> all_in_gene_range(child.code@),
{
    if crossover_rate.sample(rng) {
        proof {
            lemma_mul_inequality(1, 255, solution@.len() as int);
        }
        let len32: u32 = chrome1.code.len() as u32;
        let k = rng.below(len32) as usize;
        let child = splice(chrome1, chrome2, k);
        proof {
            assert(child.code@ == splice_spec(chrome1.code@, chrome2.code@, k as int));
        }
        child
    } else {
        fitter_parent(chrome1, chrome2)
    }
}

} // verus!
