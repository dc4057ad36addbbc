use vstd::prelude::*;

use crate::bits::{bit_count, lemma_bit_count_bound};
use crate::catalog::Algorithm;
use crate::tables::{Table16, Table8};

verus! {

/// Addition modulo 2^32.
pub open spec fn add_wrap(x: u32, y: u32) -> u32 {
    if x + y > u32::MAX {
        (x + y - 0x1_0000_0000) as u32
    } else {
        (x + y) as u32
    }
}

/// The accumulator after feeding the first `k` words of `block`, starting from `acc`:
/// each word is XORed with the accumulator, counted, and the count added in.
pub open spec fn pass(acc: u32, block: Seq<u32>, k: nat) -> u32
    decreases k,
{
    if k == 0 {
        acc
    } else {
        let r = pass(acc, block, (k - 1) as nat);
        add_wrap(r, bit_count((block[k - 1] ^ r) as nat) as u32)
    }
}

/// The accumulator after `n` passes over `block`, starting from zero.
pub open spec fn checksum(n: nat, block: Seq<u32>) -> u32
    decreases n,
{
    if n == 0 {
        0
    } else {
        pass(checksum((n - 1) as nat, block), block, block.len())
    }
}

/// `f` counts the one bits of its argument on every input.
pub open spec fn counts_bits<F: Fn(u32) -> u32>(f: F) -> bool {
    forall|x: u32, y: u32| #[trigger] f.ensures((x,), y) ==> y == bit_count(x as nat)
}

/// Folds a population count over `block`, `n` times: each word is XORed with the
/// running result before it is counted, so that every call depends on the one
/// before. When `popcount` counts bits, the result is `checksum(n, block)`.
pub fn drive<F: Fn(u32) -> u32>(popcount: F, n: u32, block: &Vec<u32>) -> (r: u32)
    requires
        forall|x: u32| popcount.requires((x,)),
    ensures
        counts_bits(popcount) ==> r == checksum(n as nat, block@),
        n == 0 ==> r == 0,
{
    let mut result: u32 = 0;
    let mut k: u32 = 0;
    while k < n
        invariant
            k <= n,
            forall|x: u32| popcount.requires((x,)),
            counts_bits(popcount) ==> result == checksum(k as nat, block@),
            k == 0 ==> result == 0,
        decreases n - k,
    {
        let ghost start: u32 = result;
        let mut i: usize = 0;
        while i < block.len()
            invariant
                i <= block.len(),
                forall|x: u32| popcount.requires((x,)),
                counts_bits(popcount) ==> result == pass(start, block@, i as nat),
            decreases block.len() - i,
        {
            let x: u32 = block[i] ^ result;
            let c: u32 = popcount(x);
            proof {
                lemma_bit_count_bound(x);
            }
            result = result.wrapping_add(c);
            i += 1;
        }
        k += 1;
    }
    result
}

impl Algorithm {
    /// Drives this algorithm over `block`, `n` times.
    pub fn drive(&self, table8: &Table8, table16: &Table16, n: u32, block: &Vec<u32>) -> (r: u32)
        requires
            table8.wf(),
            table16.wf(),
        ensures
            r == checksum(n as nat, block@),
    {
        let alg: Algorithm = *self;
        let f = |x: u32| -> (c: u32)
            requires
                table8.wf(),
                table16.wf(),
            ensures
                c == bit_count(x as nat),
            { alg.evaluate(table8, table16, x) };
        drive(f, n, block)
    }
}

/// Driving over zero passes gives zero, whatever the block.
pub proof fn lemma_zero_passes(block: Seq<u32>)
    ensures
        checksum(0, block) == 0,
{
}

} // verus!
