use popcount::algorithms::{
    popcount_2, popcount_3, popcount_4, popcount_6, popcount_8, popcount_anderson,
    popcount_hakmem, popcount_keane, popcount_mult, popcount_naive, popcount_rs, remu63,
};
use popcount::catalog::drivers;
use popcount::tables::{popcount_tabular_16, popcount_tabular_8, Table16, Table8};

fn plain_functions() -> Vec<(&'static str, fn(u32) -> u32)> {
    vec![
        ("naive", popcount_naive as fn(u32) -> u32),
        ("8", popcount_8),
        ("6", popcount_6),
        ("hakmem", popcount_hakmem),
        ("keane", popcount_keane),
        ("anderson", popcount_anderson),
        ("3", popcount_3),
        ("4", popcount_4),
        ("2", popcount_2),
        ("mult", popcount_mult),
        ("rs", popcount_rs),
    ]
}

fn reference_count(mut x: u32) -> u32 {
    let mut c = 0;
    while x != 0 {
        x &= x - 1;
        c += 1;
    }
    c
}

fn check_all(x: u32, expected: u32) {
    let t8 = Table8::new();
    let t16 = Table16::new();
    for (name, f) in plain_functions() {
        assert_eq!(f(x), expected, "popcount_{} on {:#x}", name, x);
    }
    assert_eq!(popcount_tabular_8(&t8, x), expected);
    assert_eq!(popcount_tabular_16(&t16, x), expected);
    for alg in drivers() {
        assert_eq!(alg.evaluate(&t8, &t16, x), expected, "{} on {:#x}", alg.name(), x);
    }
}

#[test]
fn every_algorithm_counts_ea9031e8() {
    check_all(0xea9031e8, 14);
}

#[test]
fn every_algorithm_counts_zero() {
    check_all(0, 0);
}

#[test]
fn every_algorithm_counts_all_ones() {
    check_all(0xffffffff, 32);
}

#[test]
fn every_algorithm_counts_01fe0000() {
    check_all(0x01fe0000, 8);
}

#[test]
fn every_algorithm_counts_single_bits_and_bytes() {
    for k in 0..32 {
        check_all(1u32 << k, 1);
    }
    check_all(0x000000ff, 8);
    check_all(0xff000000, 8);
    check_all(0x2e8eb2b2, 16);
    check_all(0x9b8be5b7, 20);
    check_all(0x55555555, 16);
    check_all(0xaaaaaaaa, 16);
}

#[test]
fn every_algorithm_matches_reference_on_a_sweep() {
    let t8 = Table8::new();
    let t16 = Table16::new();
    let mut x: u32 = 0x9e3779b9;
    for _ in 0..20000 {
        let expected = reference_count(x);
        for (name, f) in plain_functions() {
            assert_eq!(f(x), expected, "popcount_{} on {:#x}", name, x);
        }
        assert_eq!(popcount_tabular_8(&t8, x), expected);
        assert_eq!(popcount_tabular_16(&t16, x), expected);
        x = x.wrapping_mul(1664525).wrapping_add(1013904223);
    }
}

#[test]
fn tables_are_repeatable() {
    let a = Table8::new();
    let b = Table8::new();
    let c = Table16::new();
    for x in [0u32, 1, 0xdeadbeef, 0xffffffff, 0x80000001] {
        assert_eq!(popcount_tabular_8(&a, x), popcount_tabular_8(&b, x));
        assert_eq!(popcount_tabular_8(&a, x), popcount_tabular_8(&a, x));
        assert_eq!(popcount_tabular_16(&c, x), popcount_tabular_16(&c, x));
    }
    for i in 0..0x100u32 {
        assert_eq!(popcount_tabular_8(&a, i), popcount_naive(i));
    }
    for i in 0..0x10000u32 {
        assert_eq!(popcount_tabular_16(&c, i), popcount_naive(i));
    }
}

#[test]
fn remu63_on_field_words() {
    assert_eq!(remu63(0), 0);
    assert_eq!(remu63(0x41041041), 6);
    assert_eq!(remu63(0x86186186), 32);
    assert_eq!(remu63(5), 5);
    assert_eq!(remu63(6 << 6), 6);
}

#[test]
fn remu63_agrees_with_remainder() {
    let mut x: u32 = 12345;
    for _ in 0..100000 {
        assert_eq!(remu63(x), x % 63, "remu63({:#x})", x);
        x = x.wrapping_mul(22695477).wrapping_add(1);
    }
    for x in [62u32, 63, 64, 125, 126, 4095, 4096, 0xffffffff, 0xfffffffe, 0x80000000] {
        assert_eq!(remu63(x), x % 63, "remu63({:#x})", x);
    }
}

#[test]
fn multiply_variant_is_not_the_identity() {
    assert_eq!(popcount_mult(0xf0f0f0f0), 16);
    assert_eq!(popcount_rs(0x0f00000f), 8);
}
