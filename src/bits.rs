use vstd::arithmetic::div_mod::{lemma_mod_multiples_vanish, lemma_small_mod};
use vstd::prelude::*;

verus! {

/// The number of one bits in the binary representation of `n`.
pub open spec fn bit_count(n: nat) -> nat
    decreases n,
{
    if n == 0 {
        0
    } else {
        n % 2 + bit_count(n / 2)
    }
}

/// The number of one bits among the low eight bits of `b`, as a sum of single bits.
pub open spec fn byte_sum(b: u32) -> int {
    (b & 1u32) + ((b >> 1u32) & 1u32) + ((b >> 2u32) & 1u32) + ((b >> 3u32) & 1u32) + ((b >> 4u32) & 1u32) + ((b >> 5u32) & 1u32) + ((b >> 6u32) & 1u32) + ((b >> 7u32) & 1u32)
}

/// The number of one bits of a 32-bit word as a sum of single bits, a form that the
/// bit-vector solver can compare with the bit-parallel algorithms.
pub open spec fn bit_sum(n: u32) -> int {
    byte_sum(n) + byte_sum(n >> 8u32) + byte_sum(n >> 16u32) + byte_sum(n >> 24u32)
}

/// `bit_count` and `bit_sum` agree on every 32-bit word.
pub proof fn lemma_bit_sum(n: u32)
    ensures
        bit_count(n as nat) == bit_sum(n),
    decreases n,
{
    if n == 0 {
        assert(bit_sum(0u32) == 0) by (bit_vector);
    } else {
        assert(bit_sum(n) == (n & 1u32) + bit_sum(n >> 1u32) && n & 1u32 == n % 2 && n >> 1u32 == n / 2)
            by (bit_vector);
        lemma_bit_sum(n >> 1u32);
    }
}

/// A 32-bit word has at most 32 one bits.
pub proof fn lemma_bit_count_bound(n: u32)
    ensures
        bit_count(n as nat) <= 32,
{
    lemma_bit_sum(n);
    assert(0 <= bit_sum(n) <= 32) by (bit_vector);
}

/// A shift by zero keeps a word.
pub proof fn lemma_shr_zero(x: u32)
    by (bit_vector)
    ensures
        x >> 0u32 == x,
{
}

/// The sum `(n & m) + ((n >> 1) & m) + ... + ((n >> k) & m)` that a shift-and-add
/// loop over the lanes of the mask `m` builds up.
pub open spec fn lane_sum(n: u32, m: u32, k: u32) -> int
    decreases k,
{
    if k == 0 {
        (n & m) as int
    } else {
        lane_sum(n, m, (k - 1) as u32) + ((n >> k) & m)
    }
}

/// A lane sum only grows as more shifted copies are added.
pub proof fn lemma_lane_sum_monotone(n: u32, m: u32, i: u32, j: u32)
    requires
        i <= j,
    ensures
        lane_sum(n, m, i) <= lane_sum(n, m, j),
    decreases j,
{
    if i < j {
        lemma_lane_sum_monotone(n, m, i, (j - 1) as u32);
    }
}

/// Shifting by one more place, one place at a time.
pub proof fn lemma_shr_step(x: u32, k: u32)
    by (bit_vector)
    requires
        k < 31,
    ensures
        (x >> k) >> 1u32 == x >> (k + 1) as u32,
{
}

/// The sum of the 6-bit fields of a word, the last field holding its top two bits.
pub open spec fn field_sum(w: u32) -> int {
    (w & 63u32) + ((w >> 6u32) & 63u32) + ((w >> 12u32) & 63u32) + ((w >> 18u32) & 63u32)
        + ((w >> 24u32) & 63u32) + (w >> 30u32)
}

/// As 64 leaves remainder 1 by 63, a word and the sum of its 6-bit fields leave the
/// same remainder by 63.
pub proof fn lemma_mod63_field_sum(w: u32)
    ensures
        w % 63 == field_sum(w) % 63,
{
    let f0: u32 = w & 63u32;
    let f1: u32 = (w >> 6u32) & 63u32;
    let f2: u32 = (w >> 12u32) & 63u32;
    let f3: u32 = (w >> 18u32) & 63u32;
    let f4: u32 = (w >> 24u32) & 63u32;
    let f5: u32 = w >> 30u32;
    assert(w == f0 + 64 * (f1 + 64 * (f2 + 64 * (f3 + 64 * (f4 + 64 * f5))))) by (bit_vector)
        requires
            f0 == w & 63u32,
            f1 == (w >> 6u32) & 63u32,
            f2 == (w >> 12u32) & 63u32,
            f3 == (w >> 18u32) & 63u32,
            f4 == (w >> 24u32) & 63u32,
            f5 == w >> 30u32,
    ;
    let r4: int = f4 + 64 * f5;
    let r3: int = f3 + 64 * r4;
    let r2: int = f2 + 64 * r3;
    let r1: int = f1 + 64 * r2;
    lemma_mod_multiples_vanish(r1, f0 + r1, 63);
    lemma_mod_multiples_vanish(r2, f0 + f1 + r2, 63);
    lemma_mod_multiples_vanish(r3, f0 + f1 + f2 + r3, 63);
    lemma_mod_multiples_vanish(r4, f0 + f1 + f2 + f3 + r4, 63);
    lemma_mod_multiples_vanish(f5 as int, f0 + f1 + f2 + f3 + f4 + f5, 63);
}

/// A sum of fields that is below 63 is its own remainder.
pub proof fn lemma_mod63_small(x: int)
    requires
        0 <= x < 63,
    ensures
        x % 63 == x,
{
    lemma_small_mod(x as nat, 63);
}

} // verus!
