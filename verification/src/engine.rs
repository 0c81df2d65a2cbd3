//! The evolution loop: configuration, the population, and the
//! per-generation step of mutation, culling, and recombination.

use crate::chromosome::{all_in_gene_range, copy_bytes, point_mutation, Chromosome};
use crate::crossover::crossover;
use crate::prng::Prng;
use crate::rate::Rate;
use vstd::arithmetic::mul::lemma_mul_inequality;
use vstd::multiset::Multiset;
use vstd::prelude::*;

verus! {

/// The run configuration, supplied by the caller.
pub struct Config {
    /// The target byte string the population converges to.
    pub solution: Vec<u8>,
    /// Initial population size.
    pub pop_size: usize,
    /// Upper bound the population may not grow past at the start of a
    /// recombination phase (one phase may overshoot it; see `next_len`).
    pub max_pop: usize,
    /// Probability that a member is mutated in a generation.
    pub mutation_rate: Rate,
    /// Fraction of the sorted population culled from the tail.
    pub kill_fraction: Rate,
    /// Probability that combining two parents splices them rather than
    /// copying the fitter one.
    pub crossover_rate: Rate,
}

/// Why a configuration was rejected.
#[derive(Clone, Copy, PartialEq, Eq, Structural, Debug)]
pub enum ConfigError {
    /// The target is empty.
    EmptyTarget,
    /// The target is so long that a cost could overflow its counter.
    TargetTooLong,
    /// Fewer than two initial members.
    PopulationTooSmall,
    /// The growth bound is below the initial size.
    MaxPopulationTooSmall,
    /// The growth bound is too large for the machine's arithmetic.
    MaxPopulationTooLarge,
    /// A rate's denominator is zero or its ratio exceeds 1.
    InvalidRate,
}

impl Config {
    /// A usable configuration: non-empty target short enough for costs to
    /// fit in `u32`, at least two members, a growth bound no smaller than
    /// the initial size and small enough that one recombination phase
    /// cannot overflow, and well-formed rates.
    pub open spec fn wf(self) -> bool {
        &&& self.solution@.len() >= 1
        &&& self.solution@.len() * 255 <= u32::MAX
        &&& self.pop_size >= 2
        &&& self.max_pop >= self.pop_size
        &&& self.max_pop <= usize::MAX / 2
        &&& self.mutation_rate.wf()
        &&& self.kill_fraction.wf()
        &&& self.crossover_rate.wf()
    }

    /// The error `validate` reports, checking the conditions in order.
    pub open spec fn validate_spec(self) -> Result<(), ConfigError> {
        if self.solution@.len() == 0 {
            Err(ConfigError::EmptyTarget)
        } else if self.solution@.len() * 255 > u32::MAX {
            Err(ConfigError::TargetTooLong)
        } else if self.pop_size < 2 {
            Err(ConfigError::PopulationTooSmall)
        } else if self.max_pop < self.pop_size {
            Err(ConfigError::MaxPopulationTooSmall)
        } else if self.max_pop > usize::MAX / 2 {
            Err(ConfigError::MaxPopulationTooLarge)
        } else if !(self.mutation_rate.wf() && self.kill_fraction.wf()
            && self.crossover_rate.wf()) {
            Err(ConfigError::InvalidRate)
        } else {
            Ok(())
        }
    }

    /// Accepts exactly the well-formed configurations, and reports the
    /// first failing condition otherwise.
    pub fn validate(&self) -> (r: Result<(), ConfigError>)
        ensures
            r == self.validate_spec(),
            r is Ok <==> self.wf(),
    {
        proof {
            if self.solution@.len() <= u32::MAX as int / 255 {
                lemma_mul_inequality(self.solution@.len() as int, (u32::MAX / 255) as int, 255);
            } else {
                lemma_mul_inequality(
                    (u32::MAX / 255) as int + 1,
                    self.solution@.len() as int,
                    255,
                );
            }
        }
        if self.solution.len() == 0 {
            Err(ConfigError::EmptyTarget)
        } else if self.solution.len() > (u32::MAX / 255) as usize {
            Err(ConfigError::TargetTooLong)
        } else if self.pop_size < 2 {
            Err(ConfigError::PopulationTooSmall)
        } else if self.max_pop < self.pop_size {
            Err(ConfigError::MaxPopulationTooSmall)
        } else if self.max_pop > usize::MAX / 2 {
            Err(ConfigError::MaxPopulationTooLarge)
        } else if self.mutation_rate.den == 0 || self.mutation_rate.num > self.mutation_rate.den
            || self.kill_fraction.den == 0 || self.kill_fraction.num > self.kill_fraction.den
            || self.crossover_rate.den == 0 || self.crossover_rate.num
            > self.crossover_rate.den {
            Err(ConfigError::InvalidRate)
        } else {
            Ok(())
        }
    }
}

/// Costs never decrease along the sequence.
pub open spec fn sorted_by_cost(s: Seq<Chromosome>) -> bool {
    forall|i: int, j: int|
        0 <= i <= j < s.len() ==> (#[trigger] s[i]).cost_score <= (#[trigger] s[j]).cost_score
}

/// Every member is well-formed, is measured against the same target, and
/// holds only bytes from the generator's range.
pub open spec fn pop_wf(pop: Seq<Chromosome>, sol: Seq<u8>) -> bool {
    forall|i: int|
        0 <= i < pop.len() ==> (#[trigger] pop[i]).wf() && pop[i].solution@ == sol
            && all_in_gene_range(pop[i].code@)
}

/// Well-formedness against a fixed target carries over any permutation.
proof fn lemma_permutation_keeps_pop_wf(a: Seq<Chromosome>, b: Seq<Chromosome>, sol: Seq<u8>)
    requires
        a.to_multiset() == b.to_multiset(),
        pop_wf(a, sol),
    ensures
        pop_wf(b, sol),
{
    broadcast use vstd::seq_lib::to_multiset_contains;

    assert forall|i: int|
        0 <= i < b.len() implies (#[trigger] b[i]).wf() && b[i].solution@ == sol
        && all_in_gene_range(b[i].code@) by {
        assert(b.contains(b[i]));
        assert(b.to_multiset().contains(b[i]));
        assert(a.to_multiset().contains(b[i]));
        assert(a.contains(b[i]));
        let j = choose|j: int| 0 <= j < a.len() && a[j] == b[i];
        assert(a[j].wf());
    }
}

/// Inserts `x` in front of the first strictly costlier member, keeping
/// the vector sorted.
fn insert_sorted(out: &mut Vec<Chromosome>, x: Chromosome)
    requires
        sorted_by_cost(old(out)@),
    ensures
        sorted_by_cost(final(out)@),
        final(out)@.to_multiset() == old(out)@.to_multiset().insert(x),
        final(out)@.len() == old(out)@.len() + 1,
{
    let ghost out0 = out@;
    let mut idx: usize = 0;
    while idx < out.len() && out[idx].cost_score <= x.cost_score
        invariant
            out@ == out0,
            idx <= out0.len(),
            forall|j: int| 0 <= j < idx ==> (#[trigger] out0[j]).cost_score <= x.cost_score,
        decreases out0.len() - idx,
    {
        idx = idx + 1;
    }
    let ghost pos = idx as int;
    out.insert(idx, x);
    proof {
        broadcast use vstd::seq_lib::to_multiset_insert;

        out0.insert_ensures(pos, x);
        assert(sorted_by_cost(out@)) by {
            assert forall|p: int, q: int|
                0 <= p <= q < out@.len() implies (#[trigger] out@[p]).cost_score
                <= (#[trigger] out@[q]).cost_score by {
                if p < pos {
                    assert(out@[p] == out0[p]);
                }
                if q < pos {
                    assert(out@[q] == out0[q]);
                }
                if p > pos {
                    assert(out@[p] == out0[p - 1]);
                }
                if q > pos {
                    assert(out@[q] == out0[q - 1]);
                }
            }
        }
    }
}

/// Sorts the population ascending by cost. The result is a permutation
/// of the input.
pub fn sort_by_cost(v: Vec<Chromosome>) -> (r: Vec<Chromosome>)
    ensures
        sorted_by_cost(r@),
        r@.to_multiset() == v@.to_multiset(),
        r@.len() == v@.len(),
{
    broadcast use vstd::seq_lib::group_to_multiset_ensures;

    let ghost v0 = v@;
    let mut rest = v;
    let mut out: Vec<Chromosome> = Vec::new();
    proof {
        assert(out@.to_multiset().add(rest@.to_multiset()) =~= v0.to_multiset());
    }
    while rest.len() > 0
        invariant
            sorted_by_cost(out@),
            out@.to_multiset().add(rest@.to_multiset()) == v0.to_multiset(),
            out@.len() + rest@.len() == v0.len(),
        decreases rest@.len(),
    {
        let ghost rest0 = rest@;
        let ghost out_ms = out@.to_multiset();
        let x = rest.pop().unwrap();
        proof {
            broadcast use vstd::seq_lib::group_to_multiset_ensures;

            assert(rest0 =~= rest@.push(x));
            assert(rest0.to_multiset() == rest@.to_multiset().insert(x));
        }
        insert_sorted(&mut out, x);
        proof {
            broadcast use vstd::multiset::group_multiset_axioms;

            assert(out@.to_multiset().add(rest@.to_multiset()) =~= out_ms.add(
                rest0.to_multiset(),
            ));
        }
    }
    proof {
        broadcast use vstd::multiset::group_multiset_axioms;

        assert(rest@.to_multiset() =~= Multiset::<Chromosome>::empty());
        assert(out@.to_multiset() =~= v0.to_multiset());
    }
    out
}

/// Applies the mutation operator to every member, each with its own
/// random draw.
fn mutate_all(pop: &Vec<Chromosome>, mutation_rate: Rate, rng: &mut Prng) -> (r: Vec<Chromosome>)
    requires
        mutation_rate.wf(),
        forall|i: int|
            0 <= i < pop@.len() ==> (#[trigger] pop@[i]).wf() && pop@[i].code@.len() > 0
                && all_in_gene_range(pop@[i].code@),
    ensures
        r@.len() == pop@.len(),
        forall|i: int|
            0 <= i < pop@.len() ==> (#[trigger] r@[i]).wf() && r@[i].solution@
                == pop@[i].solution@ && point_mutation(pop@[i].code@, r@[i].code@)
                && all_in_gene_range(r@[i].code@),
{
    let mut r: Vec<Chromosome> = Vec::new();
    let mut i: usize = 0;
    while i < pop.len()
        invariant
            i <= pop@.len(),
            r@.len() == i,
            mutation_rate.wf(),
            forall|j: int|
                0 <= j < pop@.len() ==> (#[trigger] pop@[j]).wf() && pop@[j].code@.len() > 0
                    && all_in_gene_range(pop@[j].code@),
            forall|j: int|
                0 <= j < i ==> (#[trigger] r@[j]).wf() && r@[j].solution@ == pop@[j].solution@
                    && point_mutation(pop@[j].code@, r@[j].code@) && all_in_gene_range(
                    r@[j].code@,
                ),
        decreases pop@.len() - i,
    {
        let mut c = pop[i].clone();
        let m = c.mutate(mutation_rate, rng);
        r.push(m);
        i = i + 1;
    }
    r
}

/// The run stopped because culling would have removed every member.
#[derive(Clone, Copy, PartialEq, Eq, Structural, Debug)]
pub struct Extinction {
    /// The generation at which the population would have been emptied.
    pub generation: u64,
}

/// The generation counter after one more step; it saturates instead of
/// wrapping.
pub open spec fn sat_inc(g: u64) -> u64 {
    if g < u64::MAX {
        (g + 1) as u64
    } else {
        g
    }
}

/// The generation counter after `d` more steps, saturating as `sat_inc`
/// does.
pub open spec fn sat_add(g: u64, d: u64) -> u64 {
    if g + d <= u64::MAX {
        (g + d) as u64
    } else {
        u64::MAX
    }
}

/// The population size after one generation step on `n` members: cull
/// `floor(n * kill_fraction)` from the tail; then, when at least two
/// survivors remain and the growth bound has not been reached, add one
/// child per adjacent survivor pair. A single step may therefore end up
/// to almost twice the bound; the next step adds nothing.
pub open spec fn next_len(n: nat, cfg: Config) -> nat {
    let s = n - cfg.kill_fraction.scaled_spec(n);
    if 2 <= s < cfg.max_pop {
        (s + (s - 2)) as nat
    } else {
        s as nat
    }
}

/// The evolution loop's state: the population, the best chromosome seen
/// so far, and the number of completed generations.
pub struct Engine {
    /// The run configuration; never changed by a step.
    pub config: Config,
    /// The current population, sorted ascending by cost between steps.
    pub population: Vec<Chromosome>,
    /// The cheapest chromosome observed in any generation so far.
    pub best: Chromosome,
    /// How many generations have completed.
    pub generation: u64,
}

impl Engine {
    /// Between steps: a valid configuration, a non-empty sorted population
    /// of well-formed members measured against the configured target, and
    /// a best-so-far at most as costly as the current winner.
    pub open spec fn wf(self) -> bool {
        &&& self.config.wf()
        &&& pop_wf(self.population@, self.config.solution@)
        &&& self.population@.len() >= 1
        &&& sorted_by_cost(self.population@)
        &&& self.best.wf()
        &&& self.best.solution@ == self.config.solution@
        &&& all_in_gene_range(self.best.code@)
        &&& self.best.cost_score <= self.population@[0].cost_score
    }

    /// Seeds `pop_size` random candidates, sorts them, and records the
    /// head as the best seen so far.
    pub fn new(config: Config, rng: &mut Prng) -> (e: Engine)
        requires
            config.wf(),
        ensures
            e.wf(),
            e.config == config,
            e.generation == 0,
            e.population@.len() == config.pop_size,
            e.best@ == e.population@[0]@,
    {
        let mut pop: Vec<Chromosome> = Vec::new();
        let mut i: usize = 0;
        while i < config.pop_size
            invariant
                i <= config.pop_size,
                pop@.len() == i,
                config.wf(),
                pop_wf(pop@, config.solution@),
            decreases config.pop_size - i,
        {
            let c = Chromosome::new(copy_bytes(&config.solution), rng);
            pop.push(c);
            i = i + 1;
        }
        let ghost unsorted = pop@;
        let pop = sort_by_cost(pop);
        proof {
            lemma_permutation_keeps_pop_wf(unsorted, pop@, config.solution@);
        }
        let best = pop[0].clone();
        Engine { config, population: pop, best, generation: 0 }
    }

    /// One full generation: mutate every member, sort and cull the worst
    /// fraction, recombine adjacent survivor pairs while below the growth
    /// bound, re-sort, and pull the best seen so far forward.
    ///
    /// The cull count depends only on the population size, so a cull that
    /// would empty the population is detected up front: the step then
    /// reports extinction and leaves the state untouched.
    pub fn advance(&mut self, rng: &mut Prng) -> (r: Result<(), Extinction>)
        requires
            old(self).wf(),
        ensures
            final(self).wf(),
            final(self).config == old(self).config,
            final(self).best.cost_score <= old(self).best.cost_score,
            r is Err <==> old(self).config.kill_fraction.scaled_spec(
                old(self).population@.len() as nat,
            ) == old(self).population@.len(),
            r matches Err(x) ==> *final(self) == *old(self) && x.generation == old(
                self,
            ).generation,
            r is Ok ==> final(self).population@.len() == next_len(
                old(self).population@.len() as nat,
                old(self).config,
            ),
            r is Ok ==> final(self).generation == sat_inc(old(self).generation),
            r is Ok ==> final(self).best@ == old(self).best@ || final(self).best@
                == final(self).population@[0]@,
            r is Ok ==> final(self).best.cost_score == (if final(self).population@[0].cost_score
                < old(self).best.cost_score {
                final(self).population@[0].cost_score
            } else {
                old(self).best.cost_score
            }),
    {
        let ghost sol = self.config.solution@;
        let n = self.population.len();
        let killed = self.config.kill_fraction.scaled(n);
        if killed >= n {
            return Err(Extinction { generation: self.generation });
        }
        // Mutation pass.
        proof {
            assert(forall|i: int|
                0 <= i < self.population@.len() ==> (#[trigger] self.population@[i]).code@.len()
                    > 0);
        }
        let mutated = mutate_all(&self.population, self.config.mutation_rate, rng);
        // Sort ascending by cost, then cull the tail.
        let ghost pre_sort = mutated@;
        let mut pop = sort_by_cost(mutated);
        proof {
            lemma_permutation_keeps_pop_wf(pre_sort, pop@, sol);
        }
        let survivors = n - killed;
        let ghost whole = pop@;
        pop.truncate(survivors);
        proof {
            assert(pop@ =~= whole.subrange(0, survivors as int));
            assert(forall|i: int| 0 <= i < pop@.len() ==> pop@[i] == whole[i]);
        }
        // Recombination across adjacent survivor pairs.
        if pop.len() < self.config.max_pop && pop.len() >= 2 {
            let pairs = pop.len() - 2;
            let ghost base = pop@;
            let mut i: usize = 0;
            while i < pairs
                invariant
                    i <= pairs,
                    pairs == base.len() - 2,
                    2 <= base.len(),
                    pop@.len() == base.len() + i,
                    pop@.subrange(0, base.len() as int) == base,
                    pop_wf(pop@, sol),
                    self.config.wf(),
                    self.config.solution@ == sol,
                decreases pairs - i,
            {
                proof {
                    assert(pop@[i as int] == base[i as int]);
                    assert(pop@[i + 1] == base[i + 1]);
                }
                let child = crossover(
                    &pop[i],
                    &pop[i + 1],
                    self.config.crossover_rate,
                    &self.config.solution,
                    rng,
                );
                pop.push(child);
                proof {
                    assert(pop@.subrange(0, base.len() as int) =~= pop@.drop_last().subrange(
                        0,
                        base.len() as int,
                    ));
                }
                i = i + 1;
            }
        }
        // Re-sort and pull the best forward.
        let ghost pre_final = pop@;
        let pop = sort_by_cost(pop);
        proof {
            lemma_permutation_keeps_pop_wf(pre_final, pop@, sol);
        }
        self.population = pop;
        if self.population[0].cost_score < self.best.cost_score {
            self.best = self.population[0].clone();
        }
        if self.generation < u64::MAX {
            self.generation = self.generation + 1;
        }
        Ok(())
    }
}

/// How a run decides to stop.
#[derive(Clone, Copy, PartialEq, Eq, Structural, Debug)]
pub enum Termination {
    /// Run exactly this many generations, whatever the final cost.
    FixedGenerations(u64),
    /// Run until the winner's cost reaches zero. The counter's full range
    /// serves as the ceiling that guards a run that cannot converge.
    UntilZeroCost,
}

/// The outcome of a finished run.
#[derive(Debug)]
pub struct RunReport {
    /// The cheapest chromosome seen in any generation.
    pub winner: Chromosome,
    /// How many generations the run performed.
    pub generations: u64,
}

/// Why a run failed.
#[derive(Clone, Copy, PartialEq, Eq, Structural, Debug)]
pub enum RunError {
    /// The configuration was rejected before the run started.
    InvalidConfig(ConfigError),
    /// Culling emptied the population.
    Extinguished(Extinction),
}

/// Drives a seeded engine until the termination policy stops it.
///
/// The best cost seen never increases, and a convergence run that
/// returns without exhausting the generation counter holds a winner
/// whose code is exactly the target.
pub fn run_engine(engine: &mut Engine, termination: Termination, rng: &mut Prng) -> (r: Result<
    RunReport,
    Extinction,
>)
    requires
        old(engine).wf(),
    ensures
        final(engine).wf(),
        final(engine).config == old(engine).config,
        final(engine).best.cost_score <= old(engine).best.cost_score,
        r matches Ok(rep) ==> rep.winner@ == final(engine).best@,
        r matches Err(x) ==> x.generation == final(engine).generation
            && final(engine).config.kill_fraction.scaled_spec(
            final(engine).population@.len() as nat,
        ) == final(engine).population@.len(),
        r matches Ok(rep) ==> (termination matches Termination::FixedGenerations(g)
            ==> rep.generations == g),
        r matches Ok(rep) ==> final(engine).generation == sat_add(
            old(engine).generation,
            rep.generations,
        ),
        r matches Ok(rep) ==> all_in_gene_range(rep.winner.code@),
        old(engine).config.kill_fraction.num < old(engine).config.kill_fraction.den ==> r is Ok,
        termination matches Termination::FixedGenerations(g) ==> (g == 0 ==> (r is Ok
            && *final(engine) == *old(engine))),
        termination is UntilZeroCost ==> (r matches Ok(rep) ==> ((rep.winner.cost_score == 0
            && rep.winner.code@ == old(engine).config.solution@) || rep.generations
            == u64::MAX)),
        termination is UntilZeroCost ==> (r matches Ok(rep)
            ==> (final(engine).population@[0].cost_score == 0 || rep.generations == u64::MAX)),
        termination is UntilZeroCost ==> (old(engine).config.kill_fraction.num == old(
            engine,
        ).config.kill_fraction.den ==> ((r is Err <==> old(engine).population@[0].cost_score != 0)
            && (r matches Ok(rep) ==> rep.generations == 0))),
{
    match termination {
        Termination::FixedGenerations(gens) => {
            if gens == 0 {
                return Ok(RunReport { winner: engine.best.clone(), generations: 0 });
            }
            let mut done: u64 = 0;
            while done < gens
                invariant
                    termination == Termination::FixedGenerations(gens),
                    gens > 0,
                    done <= gens,
                    engine.wf(),
                    engine.config == old(engine).config,
                    engine.best.cost_score <= old(engine).best.cost_score,
                    engine.generation == sat_add(old(engine).generation, done),
                decreases gens - done,
            {
                match engine.advance(rng) {
                    Ok(()) => {},
                    Err(x) => {
                        proof {
                            if engine.config.kill_fraction.num
                                < engine.config.kill_fraction.den {
                                engine.config.kill_fraction.lemma_scaled_lt(
                                    engine.population@.len() as nat,
                                );
                            }
                        }
                        return Err(x);
                    },
                }
                done = done + 1;
            }
            Ok(RunReport { winner: engine.best.clone(), generations: gens })
        },
        Termination::UntilZeroCost => {
            let mut done: u64 = 0;
            while engine.population[0].cost_score != 0 && done < u64::MAX
                invariant
                    termination is UntilZeroCost,
                    engine.wf(),
                    engine.config == old(engine).config,
                    engine.best.cost_score <= old(engine).best.cost_score,
                    engine.generation == sat_add(old(engine).generation, done),
                    engine.config.kill_fraction.num == engine.config.kill_fraction.den
                        ==> done == 0 && *engine == *old(engine),
                decreases u64::MAX - done,
            {
                let ghost pre_len = engine.population@.len();
                match engine.advance(rng) {
                    Ok(()) => {},
                    Err(x) => {
                        proof {
                            if engine.config.kill_fraction.num
                                < engine.config.kill_fraction.den {
                                engine.config.kill_fraction.lemma_scaled_lt(
                                    engine.population@.len() as nat,
                                );
                            }
                        }
                        return Err(x);
                    },
                }
                proof {
                    if engine.config.kill_fraction.num == engine.config.kill_fraction.den {
                        engine.config.kill_fraction.lemma_scaled_full(pre_len as nat);
                    }
                }
                done = done + 1;
            }
            proof {
                if engine.population@[0].cost_score == 0 {
                    crate::chromosome::lemma_cost_zero_iff_equal(
                        engine.best.code@,
                        engine.best.solution@,
                    );
                }
            }
            Ok(RunReport { winner: engine.best.clone(), generations: done })
        },
    }
}

/// Validates the configuration, seeds a fresh engine and random source,
/// and runs the evolution loop under the termination policy.
pub fn run(config: Config, termination: Termination, seed: u64) -> (r: Result<
    RunReport,
    RunError,
>)
    ensures
        (r matches Err(RunError::InvalidConfig(e)) ==> config.validate_spec() == Err::<
            (),
            ConfigError,
        >(e)),
        (r matches Err(RunError::InvalidConfig(_))) <==> !config.wf(),
        r matches Ok(rep) ==> rep.winner.wf() && rep.winner.solution@ == config.solution@,
        r matches Ok(rep) ==> (termination matches Termination::FixedGenerations(g)
            ==> rep.generations == g),
        r matches Ok(rep) ==> all_in_gene_range(rep.winner.code@),
        config.wf() && config.kill_fraction.num < config.kill_fraction.den ==> r is Ok,
        termination is UntilZeroCost ==> (r matches Ok(rep) ==> ((rep.winner.cost_score == 0
            && rep.winner.code@ == config.solution@) || rep.generations == u64::MAX)),
        termination is UntilZeroCost ==> (config.wf() && config.kill_fraction.num
            == config.kill_fraction.den ==> (r matches Ok(rep) ==> rep.winner.cost_score == 0
            && rep.winner.code@ == config.solution@)),
{
    match config.validate() {
        Err(e) => Err(RunError::InvalidConfig(e)),
        Ok(()) => {
            let mut rng = Prng::from_seed(seed);
            let mut engine = Engine::new(config, &mut rng);
            match run_engine(&mut engine, termination, &mut rng) {
                Ok(rep) => Ok(rep),
                Err(x) => Err(RunError::Extinguished(x)),
            }
        },
    }
}

} // verus!
