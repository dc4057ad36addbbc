use popcount::catalog::{drivers, Algorithm, BLOCKSIZE, PREHEAT_BASE};
use popcount::driver::drive;
use popcount::prng::{random_block, Prng};
use popcount::runner::{accumulate, parse_count};
use popcount::tables::{Table16, Table8};
use popcount::validate::{first_failure, test_case_table, test_drivers, validate, CaseFailure};

#[test]
fn prng_first_values() {
    let mut g = Prng::new();
    assert_eq!(g.next(), 0x79653617);
    assert_eq!(g.next(), 0x7923ed98);
    assert_eq!(g.next(), 0xe4e11e23);
    assert_eq!(g.next(), 0xf2dfbf20);
    assert_eq!(g.next(), 0xcdc365b1);
}

#[test]
fn prng_runs_are_identical() {
    let a = random_block(BLOCKSIZE);
    let b = random_block(BLOCKSIZE);
    assert_eq!(a.len(), 1000);
    assert_eq!(a, b);
    let mut g = Prng::new();
    for (i, x) in a.iter().enumerate() {
        assert_eq!(*x, g.next(), "word {}", i);
    }
}

#[test]
fn driver_with_zero_passes_is_zero() {
    let t8 = Table8::new();
    let t16 = Table16::new();
    let block = random_block(BLOCKSIZE);
    for alg in drivers() {
        assert_eq!(alg.drive(&t8, &t16, 0, &block), 0);
    }
    assert_eq!(drive(|x: u32| x.count_ones(), 0, &vec![1, 2, 3]), 0);
}

#[test]
fn driver_feeds_results_back() {
    let t8 = Table8::new();
    let t16 = Table16::new();
    let small = vec![1u32, 2, 3];
    let other = vec![0xffffffffu32, 0, 0x12345678];
    let block = random_block(BLOCKSIZE);
    for alg in drivers() {
        assert_eq!(alg.drive(&t8, &t16, 1, &small), 3);
        assert_eq!(alg.drive(&t8, &t16, 2, &small), 8);
        assert_eq!(alg.drive(&t8, &t16, 3, &other), 134);
        assert_eq!(alg.drive(&t8, &t16, 1, &block), 15971);
        assert_eq!(alg.drive(&t8, &t16, 5, &block), 79444);
    }
}

#[test]
fn validator_keeps_every_algorithm() {
    let t8 = Table8::new();
    let t16 = Table16::new();
    let kept = test_drivers(&t8, &t16);
    assert_eq!(kept, drivers());
    assert_eq!(kept.len(), 13);
    for alg in drivers() {
        assert_eq!(validate(alg, &t8, &t16), None);
    }
}

#[test]
fn validator_reports_first_failing_case() {
    let cases = test_case_table();
    assert_eq!(cases.len(), 16);
    let good: Vec<u32> = cases.iter().map(|c| c.1).collect();
    assert_eq!(first_failure(&cases, &good), None);
    let mut bad = good.clone();
    bad[11] = 13;
    bad[13] = 0;
    assert_eq!(
        first_failure(&cases, &bad),
        Some(CaseFailure { index: 11, input: 0xea9031e8, actual: 13, expected: 14 })
    );
    let wrong: Vec<u32> = cases.iter().map(|c| c.0).collect();
    assert_eq!(
        first_failure(&cases, &wrong),
        Some(CaseFailure { index: 0, input: 0x80, actual: 0x80, expected: 1 })
    );
}

#[test]
fn parse_count_accepts_decimal() {
    assert_eq!(parse_count("0"), Some(0));
    assert_eq!(parse_count("1000"), Some(1000));
    assert_eq!(parse_count("+5"), Some(5));
    assert_eq!(parse_count("007"), Some(7));
    assert_eq!(parse_count("4294967295"), Some(4294967295));
}

#[test]
fn parse_count_rejects_other_text() {
    assert_eq!(parse_count("abc"), None);
    assert_eq!(parse_count(""), None);
    assert_eq!(parse_count("+"), None);
    assert_eq!(parse_count("-1"), None);
    assert_eq!(parse_count("12a"), None);
    assert_eq!(parse_count(" 1"), None);
    assert_eq!(parse_count("4294967296"), None);
    assert_eq!(parse_count("99999999999999999999999"), None);
    for s in ["abc", "", "+", "-1", "12a", "4294967296"] {
        assert_eq!(parse_count(s), s.parse::<u32>().ok(), "{:?}", s);
    }
}

#[test]
fn plan_divides_by_divisor() {
    let p = Algorithm::Naive.plan(1000);
    assert_eq!((p.preheat, p.nblocks, p.evaluations), (312, 62, 62000));
    let p = Algorithm::Anderson.plan(1000);
    assert_eq!((p.preheat, p.nblocks, p.evaluations), (833, 166, 166000));
    let p = Algorithm::Rs.plan(u32::MAX);
    assert_eq!((p.preheat, p.nblocks, p.evaluations), (PREHEAT_BASE, u32::MAX, u32::MAX as u64 * 1000));
    for alg in drivers() {
        let p = alg.plan(0);
        assert_eq!((p.nblocks, p.evaluations), (0, 0));
        assert_eq!(p.preheat, PREHEAT_BASE / alg.divisor());
    }
    assert_eq!(Algorithm::Two.divisor(), 4);
}

#[test]
fn names_follow_catalog_order() {
    let names: Vec<&str> = drivers().iter().map(|a| a.name()).collect();
    assert_eq!(names[0], "popcount_naive");
    assert_eq!(names[5], "popcount_anderson");
    assert_eq!(names[12], "popcount_rs");
}

#[test]
fn checksum_accumulates() {
    assert_eq!(accumulate(5, 7), 12);
    assert_eq!(accumulate(u64::MAX, 2), 1);
}
