use evostring::engine::{
    run, run_engine, sort_by_cost, Config, ConfigError, Engine, Extinction, RunError, Termination,
};
use evostring::chromosome::{cost_function, Chromosome};
use evostring::prng::Prng;
use evostring::rate::Rate;

fn config(target: &[u8], pop_size: usize, max_pop: usize) -> Config {
    Config {
        solution: target.to_vec(),
        pop_size,
        max_pop,
        mutation_rate: Rate::new(3, 10).unwrap(),
        kill_fraction: Rate::new(45, 100).unwrap(),
        crossover_rate: Rate::new(1, 2).unwrap(),
    }
}

fn chrom(code: &[u8], solution: &[u8]) -> Chromosome {
    let code: Vec<u8> = code.to_vec();
    let solution: Vec<u8> = solution.to_vec();
    let cost_score = cost_function(&code, &solution);
    Chromosome { code, cost_score, solution }
}

#[test]
fn validate_accepts_a_sound_config() {
    assert_eq!(config(b"ab", 4, 40).validate(), Ok(()));
}

#[test]
fn validate_rejects_empty_target() {
    assert_eq!(config(b"", 4, 40).validate(), Err(ConfigError::EmptyTarget));
}

#[test]
fn validate_rejects_overlong_target() {
    let too_long = (u32::MAX / 255) as usize + 1;
    let target = vec![b'a'; too_long];
    let mut cfg = config(b"ab", 4, 40);
    cfg.solution = target;
    assert_eq!(cfg.validate(), Err(ConfigError::TargetTooLong));
}

#[test]
fn validate_rejects_tiny_population() {
    assert_eq!(config(b"ab", 1, 40).validate(), Err(ConfigError::PopulationTooSmall));
}

#[test]
fn validate_rejects_low_growth_bound() {
    assert_eq!(config(b"ab", 4, 3).validate(), Err(ConfigError::MaxPopulationTooSmall));
}

#[test]
fn validate_rejects_huge_growth_bound() {
    assert_eq!(
        config(b"ab", 4, usize::MAX).validate(),
        Err(ConfigError::MaxPopulationTooLarge)
    );
}

#[test]
fn validate_rejects_bad_rate() {
    let mut cfg = config(b"ab", 4, 40);
    cfg.mutation_rate = Rate { num: 2, den: 1 };
    assert_eq!(cfg.validate(), Err(ConfigError::InvalidRate));
}

#[test]
fn sort_orders_by_cost_and_keeps_members() {
    let target = b"aaaa";
    let v = vec![
        chrom(b"zzzz", target),
        chrom(b"aaaa", target),
        chrom(b"aabb", target),
        chrom(b"aaab", target),
    ];
    let sorted = sort_by_cost(v);
    assert_eq!(sorted.len(), 4);
    for w in sorted.windows(2) {
        assert!(w[0].cost_score <= w[1].cost_score);
    }
    assert_eq!(sorted[0].code, b"aaaa".to_vec());
    assert_eq!(sorted[3].code, b"zzzz".to_vec());
}

#[test]
fn engine_seeds_a_sorted_population() {
    let mut rng = Prng::from_seed(21);
    let e = Engine::new(config(b"Tom looks tired", 8, 16), &mut rng);
    assert_eq!(e.population.len(), 8);
    assert_eq!(e.generation, 0);
    for w in e.population.windows(2) {
        assert!(w[0].cost_score <= w[1].cost_score);
    }
    assert_eq!(e.best.code, e.population[0].code);
    assert_eq!(e.best.cost_score, e.population[0].cost_score);
}

#[test]
fn advance_culls_and_recombines_to_the_expected_size() {
    let mut rng = Prng::from_seed(2);
    let mut cfg = config(b"abcd", 10, 40);
    cfg.kill_fraction = Rate::new(1, 2).unwrap();
    let mut e = Engine::new(cfg, &mut rng);
    // 10 members: cull floor(10/2) = 5, then 5 survivors add 3 children.
    assert!(e.advance(&mut rng).is_ok());
    assert_eq!(e.population.len(), 8);
    assert_eq!(e.generation, 1);
}

#[test]
fn advance_skips_recombination_below_two_survivors() {
    let mut rng = Prng::from_seed(2);
    let mut cfg = config(b"abcd", 2, 40);
    cfg.kill_fraction = Rate::new(1, 2).unwrap();
    let mut e = Engine::new(cfg, &mut rng);
    // 2 members: cull floor(2/2) = 1; a single survivor forms no pair.
    assert!(e.advance(&mut rng).is_ok());
    assert_eq!(e.population.len(), 1);
}

#[test]
fn best_cost_never_increases_across_generations() {
    let mut rng = Prng::from_seed(13);
    let mut e = Engine::new(config(b"Tom looks tired", 20, 40), &mut rng);
    let mut last = e.best.cost_score;
    for _ in 0..50 {
        e.advance(&mut rng).unwrap();
        // The tracker is exactly the cheaper of the old best and the new head.
        let head = e.population[0].cost_score;
        assert_eq!(e.best.cost_score, head.min(last));
        assert!(e.best.cost_score <= last);
        last = e.best.cost_score;
    }
}

#[test]
fn run_until_zero_converges_on_short_target() {
    let cfg = Config {
        solution: b"ab".to_vec(),
        pop_size: 4,
        max_pop: 40,
        mutation_rate: Rate::new(1, 1).unwrap(),
        kill_fraction: Rate::new(1, 2).unwrap(),
        crossover_rate: Rate::new(0, 1).unwrap(),
    };
    let rep = run(cfg, Termination::UntilZeroCost, 42).unwrap();
    assert_eq!(rep.winner.code, b"ab".to_vec());
    assert_eq!(rep.winner.cost_score, 0);
}

#[test]
fn run_zero_generations_returns_the_initial_best() {
    let cfg = config(b"Tom looks tired", 8, 16);
    let mut rng = Prng::from_seed(77);
    let mut e = Engine::new(cfg, &mut rng);
    let initial_code = e.best.code.clone();
    let initial_cost = e.best.cost_score;
    let rep = run_engine(&mut e, Termination::FixedGenerations(0), &mut rng).unwrap();
    assert_eq!(rep.generations, 0);
    assert_eq!(rep.winner.code, initial_code);
    assert_eq!(rep.winner.cost_score, initial_cost);
}

#[test]
fn run_fixed_generations_performs_the_count() {
    let mut cfg = config(b"abcd", 6, 12);
    cfg.kill_fraction = Rate::new(0, 1).unwrap();
    let rep = run(cfg, Termination::FixedGenerations(3), 1).unwrap();
    assert_eq!(rep.generations, 3);
}

#[test]
fn full_kill_fraction_reports_extinction() {
    let mut cfg = config(b"ab", 2, 40);
    cfg.kill_fraction = Rate::new(1, 1).unwrap();
    let r = run(cfg, Termination::UntilZeroCost, 4);
    assert_eq!(
        r.unwrap_err(),
        RunError::Extinguished(Extinction { generation: 0 })
    );
}

#[test]
fn run_rejects_invalid_config() {
    let cfg = config(b"ab", 1, 40);
    let r = run(cfg, Termination::UntilZeroCost, 4);
    assert_eq!(
        r.unwrap_err(),
        RunError::InvalidConfig(ConfigError::PopulationTooSmall)
    );
}
