use evostring::chromosome::{cost_function, Chromosome};
use evostring::crossover::{crossover, fitter_parent, splice};
use evostring::prng::Prng;
use evostring::rate::Rate;

fn chrom(code: &[u8], solution: &[u8]) -> Chromosome {
    let code: Vec<u8> = code.to_vec();
    let solution: Vec<u8> = solution.to_vec();
    assert_eq!(code.len(), solution.len());
    let cost_score = cost_function(&code, &solution);
    Chromosome { code, cost_score, solution }
}

#[test]
fn splice_takes_prefix_from_a_and_suffix_from_b() {
    let target = b"abcdef";
    let a = chrom(b"AAAAAA", target);
    let b = chrom(b"BBBBBB", target);
    for k in 0..=6usize {
        let child = splice(&a, &b, k);
        assert_eq!(&child.code[..k], &a.code[..k]);
        assert_eq!(&child.code[k..], &b.code[k..]);
        assert_eq!(child.cost_score, cost_function(&child.code, &child.solution));
        assert_eq!(child.solution, a.solution);
    }
}

#[test]
fn splice_at_zero_copies_parent_b() {
    let target = b"abcd";
    let a = chrom(b"wxyz", target);
    let b = chrom(b"klmn", target);
    let child = splice(&a, &b, 0);
    assert_eq!(child.code, b.code);
}

#[test]
fn fitter_parent_prefers_lower_cost() {
    let target = b"aaaa";
    let close = chrom(b"aaab", target);
    let far = chrom(b"zzzz", target);
    assert_eq!(fitter_parent(&close, &far).code, close.code);
    assert_eq!(fitter_parent(&far, &close).code, close.code);
}

#[test]
fn fitter_parent_tie_goes_to_second() {
    let target = b"aaaa";
    let first = chrom(b"aaab", target);
    let second = chrom(b"aaba", target);
    assert_eq!(first.cost_score, second.cost_score);
    assert_eq!(fitter_parent(&first, &second).code, second.code);
}

#[test]
fn crossover_rate_zero_copies_the_fitter_parent() {
    let mut rng = Prng::from_seed(5);
    let target = b"aaaa".to_vec();
    let close = chrom(b"aaab", &target);
    let far = chrom(b"zzzz", &target);
    let child = crossover(&far, &close, Rate::zero(), &target, &mut rng);
    assert_eq!(child.code, close.code);
}

#[test]
fn crossover_rate_one_splices_at_some_index() {
    let mut rng = Prng::from_seed(5);
    let target = b"abcdef".to_vec();
    let a = chrom(b"AAAAAA", &target);
    let b = chrom(b"BBBBBB", &target);
    for _ in 0..20 {
        let child = crossover(&a, &b, Rate::one(), &target, &mut rng);
        let found = (0..6usize).any(|k| {
            child.code[..k] == a.code[..k] && child.code[k..] == b.code[k..]
        });
        assert!(found);
        assert_eq!(child.cost_score, cost_function(&child.code, &target));
    }
}
