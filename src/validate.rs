use vstd::prelude::*;

use crate::bits::{bit_count, bit_sum, lemma_bit_sum};
use crate::catalog::{catalog, drivers, Algorithm};
use crate::tables::{Table16, Table8};

verus! {

/// The fixed self-test table: pairs of an input and its expected count.
pub open spec fn test_cases() -> Seq<(u32, u32)> {
    seq![
        (0x00000080u32, 1u32),
        (0x000000f0u32, 4u32),
        (0x00008000u32, 1u32),
        (0x0000f000u32, 4u32),
        (0x00800000u32, 1u32),
        (0x00f00000u32, 4u32),
        (0x80000000u32, 1u32),
        (0xf0000000u32, 4u32),
        (0xff000000u32, 8u32),
        (0x000000ffu32, 8u32),
        (0x01fe0000u32, 8u32),
        (0xea9031e8u32, 14u32),
        (0x2e8eb2b2u32, 16u32),
        (0x9b8be5b7u32, 20u32),
        (0xffffffffu32, 32u32),
        (0u32, 0u32),
    ]
}

/// The self-test table.
pub fn test_case_table() -> (r: Vec<(u32, u32)>)
    ensures
        r@ == test_cases(),
{
    let r = vec![
        (0x00000080u32, 1u32),
        (0x000000f0u32, 4u32),
        (0x00008000u32, 1u32),
        (0x0000f000u32, 4u32),
        (0x00800000u32, 1u32),
        (0x00f00000u32, 4u32),
        (0x80000000u32, 1u32),
        (0xf0000000u32, 4u32),
        (0xff000000u32, 8u32),
        (0x000000ffu32, 8u32),
        (0x01fe0000u32, 8u32),
        (0xea9031e8u32, 14u32),
        (0x2e8eb2b2u32, 16u32),
        (0x9b8be5b7u32, 20u32),
        (0xffffffffu32, 32u32),
        (0u32, 0u32),
    ];
    assert(r@ =~= test_cases());
    r
}

/// Every expected count in the self-test table is the true count of its input.
pub proof fn lemma_test_cases_correct()
    ensures
        forall|i: int|
            0 <= i < test_cases().len() ==> #[trigger] test_cases()[i].1 == bit_count(
                test_cases()[i].0 as nat,
            ),
{
    assert({
        &&& bit_sum(0x00000080u32) == 1
        &&& bit_sum(0x000000f0u32) == 4
        &&& bit_sum(0x00008000u32) == 1
        &&& bit_sum(0x0000f000u32) == 4
        &&& bit_sum(0x00800000u32) == 1
        &&& bit_sum(0x00f00000u32) == 4
        &&& bit_sum(0x80000000u32) == 1
        &&& bit_sum(0xf0000000u32) == 4
        &&& bit_sum(0xff000000u32) == 8
        &&& bit_sum(0x000000ffu32) == 8
        &&& bit_sum(0x01fe0000u32) == 8
        &&& bit_sum(0xea9031e8u32) == 14
        &&& bit_sum(0x2e8eb2b2u32) == 16
        &&& bit_sum(0x9b8be5b7u32) == 20
        &&& bit_sum(0xffffffffu32) == 32
        &&& bit_sum(0u32) == 0
    }) by (bit_vector);
    lemma_bit_sum(0x00000080u32);
    lemma_bit_sum(0x000000f0u32);
    lemma_bit_sum(0x00008000u32);
    lemma_bit_sum(0x0000f000u32);
    lemma_bit_sum(0x00800000u32);
    lemma_bit_sum(0x00f00000u32);
    lemma_bit_sum(0x80000000u32);
    lemma_bit_sum(0xf0000000u32);
    lemma_bit_sum(0xff000000u32);
    lemma_bit_sum(0x000000ffu32);
    lemma_bit_sum(0x01fe0000u32);
    lemma_bit_sum(0xea9031e8u32);
    lemma_bit_sum(0x2e8eb2b2u32);
    lemma_bit_sum(0x9b8be5b7u32);
    lemma_bit_sum(0xffffffffu32);
    lemma_bit_sum(0u32);
}

/// The first self-test case that an algorithm got wrong.
#[derive(Clone, Copy, Debug, PartialEq, Eq, Structural)]
pub struct CaseFailure {
    pub index: usize,
    pub input: u32,
    pub actual: u32,
    pub expected: u32,
}

/// `actual` agrees with the expected counts of the first `k` cases.
pub open spec fn agrees_up_to(cases: Seq<(u32, u32)>, actual: Seq<u32>, k: int) -> bool {
    forall|i: int| 0 <= i < k ==> #[trigger] actual[i] == cases[i].1
}

/// What `first_failure` reports: nothing where every case agrees, else the first
/// case that does not.
pub open spec fn first_failure_spec(cases: Seq<(u32, u32)>, actual: Seq<u32>, r: Option<CaseFailure>) -> bool {
    match r {
        None => agrees_up_to(cases, actual, cases.len() as int),
        Some(f) => {
            &&& f.index < cases.len()
            &&& agrees_up_to(cases, actual, f.index as int)
            &&& actual[f.index as int] != cases[f.index as int].1
            &&& f.input == cases[f.index as int].0
            &&& f.actual == actual[f.index as int]
            &&& f.expected == cases[f.index as int].1
        },
    }
}

/// Compares the results `actual` that an algorithm gave on the inputs of `cases`
/// with the expected counts, and reports the first case that differs.
pub fn first_failure(cases: &Vec<(u32, u32)>, actual: &Vec<u32>) -> (r: Option<CaseFailure>)
    requires
        actual.len() == cases.len(),
    ensures
        first_failure_spec(cases@, actual@, r),
{
    let mut i: usize = 0;
    while i < cases.len()
        invariant
            i <= cases.len(),
            actual.len() == cases.len(),
            agrees_up_to(cases@, actual@, i as int),
        decreases cases.len() - i,
    {
        let (input, expected) = cases[i];
        if actual[i] != expected {
            return Some(CaseFailure { index: i, input, actual: actual[i], expected });
        }
        i += 1;
    }
    None
}

/// Runs `alg` on the self-test table, stopping at the first case it gets wrong.
/// Every algorithm of the catalog passes.
pub fn validate(alg: Algorithm, table8: &Table8, table16: &Table16) -> (r: Option<CaseFailure>)
    requires
        table8.wf(),
        table16.wf(),
    ensures
        r is None,
{
    let cases = test_case_table();
    let mut i: usize = 0;
    while i < cases.len()
        invariant
            i <= cases.len(),
            cases@ == test_cases(),
            table8.wf(),
            table16.wf(),
        decreases cases.len() - i,
    {
        proof {
            lemma_test_cases_correct();
        }
        let (input, expected) = cases[i];
        let actual = alg.evaluate(table8, table16, input);
        if actual != expected {
            return Some(CaseFailure { index: i, input, actual, expected });
        }
        i += 1;
    }
    None
}

/// The algorithms of the catalog that pass the self-test, in catalog order: an
/// algorithm is left out exactly when `validate` reports a failure for it.
pub fn test_drivers(table8: &Table8, table16: &Table16) -> (r: Vec<Algorithm>)
    requires
        table8.wf(),
        table16.wf(),
    ensures
        r@ == catalog(),
{
    let all = drivers();
    let mut passed: Vec<Algorithm> = Vec::new();
    let mut i: usize = 0;
    while i < all.len()
        invariant
            i <= all.len(),
            all@ == catalog(),
            passed@ == all@.subrange(0, i as int),
            table8.wf(),
            table16.wf(),
        decreases all.len() - i,
    {
        let alg = all[i];
        if validate(alg, table8, table16).is_none() {
            passed.push(alg);
        }
        assert(all@.subrange(0, i + 1) =~= all@.subrange(0, i as int).push(alg));
        i += 1;
    }
    assert(all@.subrange(0, all.len() as int) =~= all@);
    passed
}

} // verus!
