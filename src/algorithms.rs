use vstd::arithmetic::div_mod::lemma_mod_multiples_vanish;
use vstd::prelude::*;

use crate::bits::{
    bit_count, bit_sum, field_sum, lane_sum, lemma_bit_count_bound, lemma_bit_sum,
    lemma_lane_sum_monotone, lemma_mod63_field_sum, lemma_mod63_small, lemma_shr_zero, lemma_shr_step,
};

verus! {

/// One bit at a time, stopping as soon as no one bits remain.
pub fn popcount_naive(n: u32) -> (r: u32)
    ensures
        r == bit_count(n as nat),
{
    proof {
        lemma_bit_count_bound(n);
    }
    let mut m: u32 = n;
    let mut c: u32 = 0;
    while m > 0
        invariant
            c + bit_count(m as nat) == bit_count(n as nat),
            bit_count(n as nat) <= 32,
        decreases m,
    {
        assert(m & 1u32 == m % 2 && m >> 1u32 == m / 2) by (bit_vector);
        c += m & 1;
        m >>= 1;
    }
    c
}

/// Classic binary divide-and-conquer: counts of 2, then 4, then 8 bits, then the
/// bytes are folded together.
pub fn popcount_2(n: u32) -> (r: u32)
    ensures
        r == bit_count(n as nat),
{
    let m1: u32 = 0x55555555;
    let m2: u32 = 0x33333333;
    let m4: u32 = 0x0f0f0f0f;
    assert({
        let a = (n - ((n >> 1u32) & 0x55555555u32)) as u32;
        let b = ((a & 0x33333333u32) + ((a >> 2u32) & 0x33333333u32)) as u32;
        let c = ((b + (b >> 4u32)) as u32) & 0x0f0f0f0fu32;
        let d = (c + (c >> 8u32)) as u32;
        &&& (n >> 1u32) & 0x55555555u32 <= n
        &&& (a & 0x33333333u32) + ((a >> 2u32) & 0x33333333u32) < 0x1_0000_0000
        &&& b + (b >> 4u32) < 0x1_0000_0000
        &&& c + (c >> 8u32) < 0x1_0000_0000
        &&& d + (d >> 16u32) < 0x1_0000_0000
        &&& ((d + (d >> 16u32)) as u32) & 0x3fu32 == bit_sum(n)
    }) by (bit_vector);
    let a: u32 = n - ((n >> 1) & m1);
    let b: u32 = (a & m2) + ((a >> 2) & m2);
    let c: u32 = (b + (b >> 4)) & m4;
    let d: u32 = c + (c >> 8);
    proof {
        lemma_bit_sum(n);
    }
    (d + (d >> 16)) & 0x3f
}

/// Divide and conquer with a ternary stage, which saves masking.
pub fn popcount_3(n: u32) -> (r: u32)
    ensures
        r == bit_count(n as nat),
{
    let m1: u32 = 0x55555555;
    let m2: u32 = 0xc30c30c3;
    assert({
        let a = (n - ((n >> 1u32) & 0x55555555u32)) as u32;
        let b = ((a & 0xc30c30c3u32) + ((a >> 2u32) & 0xc30c30c3u32) + ((a >> 4u32) & 0xc30c30c3u32)) as u32;
        let c = (b + (b >> 6u32)) as u32;
        &&& (n >> 1u32) & 0x55555555u32 <= n
        &&& (a & 0xc30c30c3u32) + ((a >> 2u32) & 0xc30c30c3u32) + ((a >> 4u32) & 0xc30c30c3u32) < 0x1_0000_0000
        &&& b + (b >> 6u32) < 0x1_0000_0000
        &&& c + (c >> 12u32) + (c >> 24u32) < 0x1_0000_0000
        &&& ((c + (c >> 12u32) + (c >> 24u32)) as u32) & 0x3fu32 == bit_sum(n)
    }) by (bit_vector);
    let a: u32 = n - ((n >> 1) & m1);
    let b: u32 = (a & m2) + ((a >> 2) & m2) + ((a >> 4) & m2);
    let c: u32 = b + (b >> 6);
    let r: u32 = (c + (c >> 12) + (c >> 24)) & 0x3f;
    proof {
        lemma_bit_sum(n);
    }
    r
}

/// Eight-way bit parallelism: each byte lane of `c` collects the one bits of its
/// byte, then the lanes are folded together.
pub fn popcount_8(n: u32) -> (r: u32)
    ensures
        r == bit_count(n as nat),
{
    let m: u32 = 0x01010101;
    proof {
        reveal_with_fuel(lane_sum, 8);
        let s = lane_sum(n, 0x01010101u32, 7);
        assert(s == (n & 0x01010101u32) + ((n >> 1u32) & 0x01010101u32) + ((n >> 2u32) & 0x01010101u32)
            + ((n >> 3u32) & 0x01010101u32) + ((n >> 4u32) & 0x01010101u32) + ((n >> 5u32) & 0x01010101u32)
            + ((n >> 6u32) & 0x01010101u32) + ((n >> 7u32) & 0x01010101u32));
        assert({
            let s = (n & 0x01010101u32) + ((n >> 1u32) & 0x01010101u32) + ((n >> 2u32) & 0x01010101u32)
                + ((n >> 3u32) & 0x01010101u32) + ((n >> 4u32) & 0x01010101u32) + ((n >> 5u32) & 0x01010101u32)
                + ((n >> 6u32) & 0x01010101u32) + ((n >> 7u32) & 0x01010101u32);
            let c = (s + ((s as u32) >> 8u32)) as u32;
            &&& s < 0x1_0000_0000
            &&& s + ((s as u32) >> 8u32) < 0x1_0000_0000
            &&& c + (c >> 16u32) < 0x1_0000_0000
            &&& ((c + (c >> 16u32)) as u32) & 0x3fu32 == bit_sum(n)
        }) by (bit_vector);
        lemma_shr_zero(n);
    }
    let mut x: u32 = n;
    let mut c: u32 = n & m;
    for k in 0..7u32
        invariant
            x == n >> k,
            c == lane_sum(n, m, k),
            lane_sum(n, m, 7) < 0x1_0000_0000,
    {
        proof {
            lemma_shr_step(n, k);
            lemma_lane_sum_monotone(n, m, (k + 1) as u32, 7);
        }
        x >>= 1;
        c += x & m;
    }
    c += c >> 8;
    c += c >> 16;
    proof {
        lemma_bit_sum(n);
    }
    c & 0x3f
}

/// Six-way bit parallelism: each 6-bit lane of `c` collects the one bits of its
/// lane, then the lanes are folded together.
pub fn popcount_6(n: u32) -> (r: u32)
    ensures
        r == bit_count(n as nat),
{
    let m: u32 = 0x41041041;
    proof {
        reveal_with_fuel(lane_sum, 6);
        let s = lane_sum(n, 0x41041041u32, 5);
        assert(s == (n & 0x41041041u32) + ((n >> 1u32) & 0x41041041u32) + ((n >> 2u32) & 0x41041041u32)
            + ((n >> 3u32) & 0x41041041u32) + ((n >> 4u32) & 0x41041041u32) + ((n >> 5u32) & 0x41041041u32));
        assert({
            let s = (n & 0x41041041u32) + ((n >> 1u32) & 0x41041041u32) + ((n >> 2u32) & 0x41041041u32)
                + ((n >> 3u32) & 0x41041041u32) + ((n >> 4u32) & 0x41041041u32) + ((n >> 5u32) & 0x41041041u32);
            let c = (s + ((s as u32) >> 6u32)) as u32;
            let d = (c + (c >> 12u32)) as u32;
            &&& s < 0x1_0000_0000
            &&& s + ((s as u32) >> 6u32) < 0x1_0000_0000
            &&& c + (c >> 12u32) < 0x1_0000_0000
            &&& d + (d >> 24u32) < 0x1_0000_0000
            &&& ((d + (d >> 24u32)) as u32) & 0x3fu32 == bit_sum(n)
        }) by (bit_vector);
        lemma_shr_zero(n);
    }
    let mut x: u32 = n;
    let mut c: u32 = n & m;
    for k in 0..5u32
        invariant
            x == n >> k,
            c == lane_sum(n, m, k),
            lane_sum(n, m, 5) < 0x1_0000_0000,
    {
        proof {
            lemma_shr_step(n, k);
            lemma_lane_sum_monotone(n, m, (k + 1) as u32, 5);
        }
        x >>= 1;
        c += x & m;
    }
    c += c >> 6;
    c += c >> 12;
    c += c >> 24;
    proof {
        lemma_bit_sum(n);
    }
    c & 0x3f
}

/// Divide and conquer with a quaternary stage, which saves masking and keeps the
/// later shifts at powers of two.
pub fn popcount_4(n: u32) -> (r: u32)
    ensures
        r == bit_count(n as nat),
{
    let m1: u32 = 0x55555555;
    let m2: u32 = 0x03030303;
    assert({
        let a = (n - ((n >> 1u32) & 0x55555555u32)) as u32;
        let b = ((a & 0x03030303u32) + ((a >> 2u32) & 0x03030303u32) + ((a >> 4u32) & 0x03030303u32)
            + ((a >> 6u32) & 0x03030303u32)) as u32;
        let c = (b + (b >> 8u32)) as u32;
        &&& (n >> 1u32) & 0x55555555u32 <= n
        &&& (a & 0x03030303u32) + ((a >> 2u32) & 0x03030303u32) + ((a >> 4u32) & 0x03030303u32)
            + ((a >> 6u32) & 0x03030303u32) < 0x1_0000_0000
        &&& b + (b >> 8u32) < 0x1_0000_0000
        &&& c + (c >> 16u32) < 0x1_0000_0000
        &&& ((c + (c >> 16u32)) as u32) & 0x3fu32 == bit_sum(n)
    }) by (bit_vector);
    let a: u32 = n - ((n >> 1) & m1);
    let b: u32 = (a & m2) + ((a >> 2) & m2) + ((a >> 4) & m2) + ((a >> 6) & m2);
    let c: u32 = b + (b >> 8);
    proof {
        lemma_bit_sum(n);
    }
    (c + (c >> 16)) & 0x3f
}

/// Relies on `std::hint::black_box`, which returns its argument unchanged; it keeps
/// the compiler from folding away the multiplication it is applied to.
#[verifier::external_body]
fn observe(x: u32) -> (r: u32)
    ensures
        r == x,
{
    std::hint::black_box(x)
}

/// Divide and conquer down to byte counts, then one multiplication by `0x01010101`
/// sums the four bytes into the top byte.
pub fn popcount_mult(n: u32) -> (r: u32)
    ensures
        r == bit_count(n as nat),
{
    let m1: u32 = 0x55555555;
    let m2: u32 = 0x33333333;
    let m4: u32 = 0x0f0f0f0f;
    let h01: u32 = 0x01010101;
    assert({
        let a = (n - ((n >> 1u32) & 0x55555555u32)) as u32;
        let b = ((a & 0x33333333u32) + ((a >> 2u32) & 0x33333333u32)) as u32;
        let c = ((b + (b >> 4u32)) as u32) & 0x0f0f0f0fu32;
        let p = ((c * 0x01010101u32) % 0x1_0000_0000) as u32;
        &&& (n >> 1u32) & 0x55555555u32 <= n
        &&& (a & 0x33333333u32) + ((a >> 2u32) & 0x33333333u32) < 0x1_0000_0000
        &&& b + (b >> 4u32) < 0x1_0000_0000
        &&& (p >> 24u32) & 0xffu32 == bit_sum(n)
    }) by (bit_vector);
    // count of each 2 bits in those 2 bits
    let a: u32 = n - ((n >> 1) & m1);
    // count of each 4 bits in those 4 bits
    let b: u32 = (a & m2) + ((a >> 2) & m2);
    // count of each 8 bits in those 8 bits
    let c: u32 = (b + (b >> 4)) & m4;
    let p: u32 = observe(c.wrapping_mul(h01));
    proof {
        lemma_bit_sum(n);
    }
    (p >> 24) & 0xff
}

/// The word of 6-bit field counts that HAKMEM item 169 builds before its final
/// reduction modulo 63.
pub open spec fn hakmem_fields(n: u32) -> u32 {
    let y = (n >> 1u32) & 0o33333333333u32;
    let z = (n - y - ((y >> 1u32) & 0o33333333333u32)) as u32;
    ((z + (z >> 3u32)) as u32) & 0o30707070707u32
}

/// The steps of `hakmem_fields` stay in range, and its remainder by 63 is the count.
proof fn lemma_hakmem_fields(n: u32)
    ensures
        ((n >> 1u32) & 0o33333333333u32) + ((((n >> 1u32) & 0o33333333333u32) >> 1u32)
            & 0o33333333333u32) <= n,
        ({
            let y = (n >> 1u32) & 0o33333333333u32;
            let z = (n - y - ((y >> 1u32) & 0o33333333333u32)) as u32;
            z + (z >> 3u32) < 0x1_0000_0000
        }),
        hakmem_fields(n) % 63 == bit_count(n as nat),
{
    assert({
        let y = (n >> 1u32) & 0o33333333333u32;
        let z = (n - y - ((y >> 1u32) & 0o33333333333u32)) as u32;
        let w = ((z + (z >> 3u32)) as u32) & 0o30707070707u32;
        &&& y + ((y >> 1u32) & 0o33333333333u32) <= n
        &&& z + (z >> 3u32) < 0x1_0000_0000
        &&& field_sum(w) == bit_sum(n)
    }) by (bit_vector);
    lemma_mod63_field_sum(hakmem_fields(n));
    lemma_bit_sum(n);
    lemma_bit_count_bound(n);
    lemma_mod63_small(bit_sum(n));
}

/// HAKMEM item 169: counts of 3-bit fields, summed into 6-bit fields, and the
/// fields added up by reducing modulo 63.
pub fn popcount_hakmem(n: u32) -> (r: u32)
    ensures
        r == bit_count(n as nat),
{
    proof {
        lemma_hakmem_fields(n);
    }
    let y: u32 = (n >> 1) & 0o33333333333;
    let z: u32 = n - y - ((y >> 1) & 0o33333333333);
    ((z + (z >> 3)) & 0o30707070707) % 63
}

/// The last two steps of Keane's method, from the intermediate word `t`.
pub open spec fn keane_tail(t: u32) -> u32 {
    let u = (((t >> 6u32) + t + 3) % 0x1_0000_0000) as u32 & 0xffu32;
    ((u - (u >> 6u32)) as u32) >> 2u32
}

/// The last two steps only read the low 14 bits of `t`, and their subtraction
/// stays in range.
proof fn lemma_keane_tail(t: u32)
    by (bit_vector)
    ensures
        keane_tail(t) == keane_tail(t & 0x3fffu32),
        ({
            let u = (((t >> 6u32) + t + 3) % 0x1_0000_0000) as u32 & 0xffu32;
            u >> 6u32 <= u
        }),
{
}

/// Keane's steps, applied to a word below 2^20 + 2^12, leave its remainder by 63.
#[verifier::rlimit(100)]
proof fn lemma_keane_reduced(s: u32)
    by (bit_vector)
    requires
        s < 0x10_1000,
    ensures
        keane_tail(((4 * s + (s >> 10u32)) as u32) & 0x3fffu32) == s % 63,
{
}

/// The remainder of `n` by 63, computed with shifts, additions and masks only
/// (Joe Keane's method, as given in Hacker's Delight).
pub fn remu63(n: u32) -> (r: u32)
    ensures
        r == n % 63,
{
    // As 4096 leaves remainder 1 by 63, `n` and `s` leave the same remainder, and
    // the low 14 bits of `t` only depend on `s`.
    let ghost s: u32 = ((n & 0xfffu32) + (n >> 12u32)) as u32;
    let t: u32 = ((n >> 12).wrapping_add(n) >> 10).wrapping_add(n << 2);
    assert({
        &&& t & 0x3fffu32 == ((4 * s + (s >> 10u32)) as u32) & 0x3fffu32
        &&& s < 0x10_1000
        &&& n == 4096 * (n >> 12u32) + (n & 0xfffu32)
        &&& s == (n >> 12u32) + (n & 0xfffu32)
    }) by (bit_vector)
        requires
            s == ((n & 0xfffu32) + (n >> 12u32)) as u32,
            t == ((((((n >> 12u32) + n) % 0x1_0000_0000) as u32 >> 10u32) + (n << 2u32)) % 0x1_0000_0000) as u32,
    ;
    proof {
        lemma_keane_tail(t);
        lemma_keane_reduced(s);
        lemma_mod_multiples_vanish(65 * (n >> 12u32), s as int, 63);
    }
    let u: u32 = (t >> 6).wrapping_add(t).wrapping_add(3) & 0xff;
    (u - (u >> 6)) >> 2
}

/// HAKMEM item 169, with the final reduction done by `remu63` instead of `%`.
pub fn popcount_keane(n: u32) -> (r: u32)
    ensures
        r == bit_count(n as nat),
{
    proof {
        lemma_hakmem_fields(n);
    }
    let y: u32 = (n >> 1) & 0o33333333333;
    let z: u32 = n - y - ((y >> 1) & 0o33333333333);
    remu63((z + (z >> 3)) & 0o30707070707)
}

/// The number of one bits among the low twelve bits of `x`, as a sum of single bits.
pub open spec fn twelve_bit_sum(x: u64) -> int {
    (x & 1u64) + ((x >> 1u64) & 1u64) + ((x >> 2u64) & 1u64) + ((x >> 3u64) & 1u64) + ((x >> 4u64) & 1u64) + ((x >> 5u64) & 1u64) + ((x >> 6u64) & 1u64) + ((x >> 7u64) & 1u64) + ((x >> 8u64) & 1u64) + ((x >> 9u64) & 1u64) + ((x >> 10u64) & 1u64) + ((x >> 11u64) & 1u64)
}

/// Spreading a 12-bit chunk over 5-bit fields by one multiplication, masking, and
/// reducing modulo 31 counts its one bits; the product fits in 64 bits.
proof fn lemma_anderson_chunk(x: u64)
    by (bit_vector)
    requires
        x < 4096,
    ensures
        x * 0x1001001001001u64 < 0x1_0000_0000_0000_0000,
        (((x * 0x1001001001001u64) as u64) & 0x84210842108421u64) % 31 == twelve_bit_sum(x),
        twelve_bit_sum(x) <= 12,
{
}

/// A 64-bit variant of HAKMEM item 169 (Sean Anderson): three 12-bit chunks, each
/// counted by a multiplication, a mask and a reduction modulo 31.
pub fn popcount_anderson(n: u32) -> (r: u32)
    ensures
        r == bit_count(n as nat),
{
    let p: u64 = 0x1001001001001;
    let m: u64 = 0x84210842108421;
    let x0: u64 = (n & 0xfff) as u64;
    let x1: u64 = ((n & 0xfff000) >> 12) as u64;
    let x2: u64 = (n >> 24) as u64;
    assert({
        &&& (n & 0xfffu32) < 4096
        &&& (n & 0xfff000u32) >> 12u32 < 4096
        &&& n >> 24u32 < 4096
        &&& twelve_bit_sum((n & 0xfffu32) as u64) + twelve_bit_sum((((n & 0xfff000u32) >> 12u32)) as u64)
            + twelve_bit_sum((n >> 24u32) as u64) == bit_sum(n)
    }) by (bit_vector);
    proof {
        lemma_anderson_chunk(x0);
        lemma_anderson_chunk(x1);
        lemma_anderson_chunk(x2);
        lemma_bit_sum(n);
    }
    let mut c: u64 = ((x0 * p) & m) % 0x1f;
    c += ((x1 * p) & m) % 0x1f;
    c += ((x2 * p) & m) % 0x1f;
    c as u32
}

/// Relies on `u32::count_ones`, documented to return the number of ones in the
/// binary representation of its argument.
#[verifier::external_body]
fn count_ones(n: u32) -> (r: u32)
    ensures
        r == bit_count(n as nat),
{
    n.count_ones()
}

/// The standard library's own count, which may compile to the processor's
/// population-count instruction.
pub fn popcount_rs(n: u32) -> (r: u32)
    ensures
        r == bit_count(n as nat),
{
    count_ones(n)
}

} // verus!
