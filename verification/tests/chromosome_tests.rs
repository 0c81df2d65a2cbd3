use evostring::chromosome::{cost_function, rand_string, Chromosome, GENE_MAX, GENE_MIN};
use evostring::prng::Prng;
use evostring::rate::Rate;

fn chrom(code: &[u8], solution: &[u8]) -> Chromosome {
    let code: Vec<u8> = code.to_vec();
    let solution: Vec<u8> = solution.to_vec();
    assert_eq!(code.len(), solution.len());
    let cost_score = cost_function(&code, &solution);
    Chromosome { code, cost_score, solution }
}

#[test]
fn cost_example() {
    // byte values 97,97,98 against 97,98,99: 0 + 1 + 1
    let a = b"aab".to_vec();
    let b = b"abc".to_vec();
    assert_eq!(cost_function(&a, &b), 2);
}

#[test]
fn cost_symmetric_examples() {
    let pairs: [(&[u8], &[u8]); 3] = [(b"aab", b"abc"), (b"Tom", b"tOM"), (b" ", b"z")];
    for (x, y) in pairs {
        let a = x.to_vec();
        let b = y.to_vec();
        assert_eq!(cost_function(&a, &b), cost_function(&b, &a));
    }
}

#[test]
fn cost_identical_is_zero() {
    let a = b"Tom looks tired".to_vec();
    assert_eq!(cost_function(&a, &a), 0);
}

#[test]
fn cost_zero_only_for_identical() {
    let a = b"abcd".to_vec();
    let b = b"abce".to_vec();
    assert!(cost_function(&a, &b) > 0);
}

#[test]
fn rand_string_length_and_range() {
    let mut rng = Prng::from_seed(7);
    let s = rand_string(200, &mut rng);
    assert_eq!(s.len(), 200);
    for &g in s.iter() {
        assert!(GENE_MIN <= g && g <= GENE_MAX);
    }
    // A fresh draw of this length is overwhelmingly unlikely to repeat.
    let t = rand_string(200, &mut rng);
    assert_ne!(s, t);
}

#[test]
fn rand_string_empty() {
    let mut rng = Prng::from_seed(7);
    let s = rand_string(0, &mut rng);
    assert!(s.is_empty());
}

#[test]
fn chromosome_new_is_scored_against_target() {
    let mut rng = Prng::from_seed(11);
    let target = b"Tom looks tired".to_vec();
    let c = Chromosome::new(target.clone(), &mut rng);
    assert_eq!(c.solution, target);
    assert_eq!(c.code.len(), target.len());
    assert_eq!(c.cost_score, cost_function(&c.code, &target));
}

#[test]
fn mutate_changes_at_most_one_position() {
    let mut rng = Prng::from_seed(3);
    for _ in 0..50 {
        let mut c = chrom(b"xxxxxxxx", b"abcdefgh");
        let before = c.code.clone();
        c.mutate(Rate::one(), &mut rng);
        let diffs = before.iter().zip(c.code.iter()).filter(|(x, y)| x != y).count();
        assert!(diffs <= 1);
        assert_eq!(c.cost_score, cost_function(&c.code, &c.solution));
    }
}

#[test]
fn mutate_rate_zero_changes_nothing() {
    let mut rng = Prng::from_seed(3);
    let mut c = chrom(b"xxxxxxxx", b"abcdefgh");
    let before = c.code.clone();
    let cost_before = c.cost_score;
    let copy = c.mutate(Rate::zero(), &mut rng);
    assert_eq!(c.code, before);
    assert_eq!(c.cost_score, cost_before);
    assert_eq!(copy.code, before);
}

#[test]
fn mutate_single_byte_chromosome() {
    let mut rng = Prng::from_seed(9);
    let mut c = chrom(b"z", b"a");
    let mut changed = false;
    for _ in 0..100 {
        c.mutate(Rate::one(), &mut rng);
        assert!(GENE_MIN <= c.code[0] && c.code[0] <= GENE_MAX);
        assert_eq!(c.cost_score, cost_function(&c.code, &c.solution));
        if c.code[0] != b'z' {
            changed = true;
        }
    }
    assert!(changed);
}

#[test]
fn clone_preserves_everything() {
    let c = chrom(b"abc", b"abd");
    let d = c.clone();
    assert_eq!(c.code, d.code);
    assert_eq!(c.cost_score, d.cost_score);
    assert_eq!(c.solution, d.solution);
}
