use vstd::prelude::*;
use vstd::string::StringSliceAdditionalSpecFns;

use crate::catalog::{Algorithm, BLOCKSIZE, PREHEAT_BASE};

verus! {

/// Whether `b` is an ASCII decimal digit.
pub open spec fn is_digit(b: u8) -> bool {
    48 <= b <= 57
}

/// The value of a string of decimal digits.
pub open spec fn digits_value(s: Seq<u8>) -> nat
    decreases s.len(),
{
    if s.len() == 0 {
        0
    } else {
        digits_value(s.drop_last()) * 10 + (s.last() - 48) as nat
    }
}

/// The text after an optional leading `+`.
pub open spec fn unsigned_digits(s: Seq<u8>) -> Seq<u8> {
    if s.len() > 0 && s[0] == 43 {
        s.skip(1)
    } else {
        s
    }
}

/// The count that the text `s` gives: an optional `+` followed by one or more
/// decimal digits whose value fits in 32 bits. Anything else gives nothing.
pub open spec fn parsed_count(s: Seq<u8>) -> Option<u32> {
    let d = unsigned_digits(s);
    if d.len() > 0 && (forall|i: int| 0 <= i < d.len() ==> is_digit(#[trigger] d[i])) && digits_value(d)
        <= u32::MAX {
        Some(digits_value(d) as u32)
    } else {
        None
    }
}

/// A string of digits is worth at least as much as any of its prefixes.
proof fn lemma_digits_value_prefix(s: Seq<u8>, k: int)
    requires
        0 <= k <= s.len(),
        forall|i: int| 0 <= i < s.len() ==> is_digit(#[trigger] s[i]),
    ensures
        digits_value(s.subrange(0, k)) <= digits_value(s),
    decreases s.len(),
{
    if k < s.len() {
        let t = s.drop_last();
        assert(t.subrange(0, k) =~= s.subrange(0, k));
        lemma_digits_value_prefix(t, k);
    } else {
        assert(s.subrange(0, k) =~= s);
    }
}

/// Reads the iteration count from a command-line argument.
pub fn parse_count(arg: &str) -> (r: Option<u32>)
    ensures
        r == parsed_count(arg.spec_bytes()),
{
    let bytes: &[u8] = arg.as_bytes();
    let len: usize = bytes.len();
    let start: usize = if len > 0 && bytes[0] == 43 {
        1
    } else {
        0
    };
    let ghost d: Seq<u8> = unsigned_digits(bytes@);
    assert(d =~= bytes@.subrange(start as int, len as int));
    if start == len {
        return None;
    }
    let mut v: u64 = 0;
    let mut i: usize = start;
    while i < len
        invariant
            start <= i <= len,
            len == bytes@.len(),
            bytes@ == arg.spec_bytes(),
            d == unsigned_digits(bytes@),
            d == bytes@.subrange(start as int, len as int),
            v == digits_value(d.subrange(0, i - start)),
            v <= u32::MAX,
            forall|j: int| 0 <= j < i - start ==> is_digit(#[trigger] d[j]),
        decreases len - i,
    {
        let b: u8 = bytes[i];
        if b < 48 || b > 57 {
            assert(!is_digit(d[i - start]));
            return None;
        }
        assert(d.subrange(0, i + 1 - start).drop_last() =~= d.subrange(0, i - start));
        v = v * 10 + (b - 48) as u64;
        assert(v == digits_value(d.subrange(0, i + 1 - start)));
        if v > u32::MAX as u64 {
            proof {
                if forall|j: int| 0 <= j < d.len() ==> is_digit(#[trigger] d[j]) {
                    lemma_digits_value_prefix(d, i + 1 - start);
                }
            }
            return None;
        }
        i += 1;
    }
    assert(d.subrange(0, len - start) =~= d);
    Some(v as u32)
}

/// The block counts and the number of word evaluations of one algorithm's run.
#[derive(Clone, Copy, Debug, PartialEq, Eq, Structural)]
pub struct RunPlan {
    /// Blocks of the warm-up run.
    pub preheat: u32,
    /// Blocks of the timed run.
    pub nblocks: u32,
    /// Words counted in the timed run.
    pub evaluations: u64,
}

/// The run of an algorithm with divisor `divisor` when `n` blocks are asked for:
/// both block counts are divided by the divisor.
pub fn plan_for_divisor(n: u32, divisor: u32) -> (r: RunPlan)
    requires
        divisor > 0,
    ensures
        r.preheat == PREHEAT_BASE / divisor,
        r.nblocks == n / divisor,
        r.evaluations == r.nblocks * BLOCKSIZE,
{
    let nblocks: u32 = n / divisor;
    assert(nblocks * 1000 <= 0xffff_ffff * 1000) by (nonlinear_arith)
        requires
            nblocks <= 0xffff_ffff,
    ;
    RunPlan { preheat: PREHEAT_BASE / divisor, nblocks, evaluations: nblocks as u64 * BLOCKSIZE as u64 }
}

impl Algorithm {
    /// The run of this algorithm when `n` blocks are asked for.
    pub fn plan(&self, n: u32) -> (r: RunPlan)
        ensures
            r.preheat == PREHEAT_BASE / self.spec_divisor(),
            r.nblocks == n / self.spec_divisor(),
            r.evaluations == r.nblocks * BLOCKSIZE,
    {
        plan_for_divisor(n, self.divisor())
    }
}

/// Adds one driver result into the run's checksum, modulo 2^64.
pub fn accumulate(csum: u64, result: u32) -> (r: u64)
    ensures
        r == (csum + result) % 0x1_0000_0000_0000_0000,
{
    csum.wrapping_add(result as u64)
}

} // verus!
