use vstd::prelude::*;

use crate::algorithms::popcount_naive;
use crate::bits::{bit_count, bit_sum, lemma_bit_count_bound, lemma_bit_sum};

verus! {

/// The count of every byte value, filled by the bit-at-a-time algorithm.
pub struct Table8 {
    entries: Vec<u32>,
}

impl View for Table8 {
    type V = Seq<u32>;

    closed spec fn view(&self) -> Seq<u32> {
        self.entries@
    }
}

impl Table8 {
    /// Every one of the 256 entries is the count of its index.
    pub open spec fn wf(&self) -> bool {
        &&& self@.len() == 0x100
        &&& forall|i: int| 0 <= i < 0x100 ==> #[trigger] self@[i] == bit_count(i as nat)
    }

    /// Fills the table by applying `popcount_naive` to every byte value.
    pub fn new() -> (r: Table8)
        ensures
            r.wf(),
    {
        let mut entries: Vec<u32> = Vec::with_capacity(0x100);
        let mut i: u32 = 0;
        while i < 0x100
            invariant
                i <= 0x100,
                entries@.len() == i,
                forall|j: int| 0 <= j < i ==> #[trigger] entries@[j] == bit_count(j as nat),
            decreases 0x100 - i,
        {
            entries.push(popcount_naive(i));
            i += 1;
        }
        Table8 { entries }
    }
}

/// The count of every 16-bit value, filled by the bit-at-a-time algorithm.
pub struct Table16 {
    entries: Vec<u32>,
}

impl View for Table16 {
    type V = Seq<u32>;

    closed spec fn view(&self) -> Seq<u32> {
        self.entries@
    }
}

impl Table16 {
    /// Every one of the 65536 entries is the count of its index.
    pub open spec fn wf(&self) -> bool {
        &&& self@.len() == 0x10000
        &&& forall|i: int| 0 <= i < 0x10000 ==> #[trigger] self@[i] == bit_count(i as nat)
    }

    /// Fills the table by applying `popcount_naive` to every 16-bit value.
    pub fn new() -> (r: Table16)
        ensures
            r.wf(),
    {
        let mut entries: Vec<u32> = Vec::with_capacity(0x10000);
        let mut i: u32 = 0;
        while i < 0x10000
            invariant
                i <= 0x10000,
                entries@.len() == i,
                forall|j: int| 0 <= j < i ==> #[trigger] entries@[j] == bit_count(j as nat),
            decreases 0x10000 - i,
        {
            entries.push(popcount_naive(i));
            i += 1;
        }
        Table16 { entries }
    }
}

/// Table-driven count: one lookup in the byte table for each byte of `n`.
pub fn popcount_tabular_8(table: &Table8, n: u32) -> (r: u32)
    requires
        table.wf(),
    ensures
        r == bit_count(n as nat),
{
    let b0: u32 = (#[verifier::truncate] (n as u8)) as u32;
    let b1: u32 = (#[verifier::truncate] ((n >> 8) as u8)) as u32;
    let b2: u32 = (#[verifier::truncate] ((n >> 16) as u8)) as u32;
    let b3: u32 = n >> 24;
    assert({
        &&& (n as u8) as u32 == n & 0xffu32
        &&& ((n >> 8u32) as u8) as u32 == (n >> 8u32) & 0xffu32
        &&& ((n >> 16u32) as u8) as u32 == (n >> 16u32) & 0xffu32
        &&& n >> 24u32 < 0x100
        &&& bit_sum(n) == bit_sum(n & 0xffu32) + bit_sum((n >> 8u32) & 0xffu32) + bit_sum(
            (n >> 16u32) & 0xffu32,
        ) + bit_sum(n >> 24u32)
    }) by (bit_vector);
    proof {
        lemma_bit_sum(n);
        lemma_bit_sum(b0);
        lemma_bit_count_bound(b0);
        lemma_bit_sum(b1);
        lemma_bit_count_bound(b1);
        lemma_bit_sum(b2);
        lemma_bit_count_bound(b2);
        lemma_bit_sum(b3);
        lemma_bit_count_bound(b3);
    }
    table.entries[b0 as usize] + table.entries[b1 as usize] + table.entries[b2 as usize]
        + table.entries[b3 as usize]
}

/// Table-driven count: one lookup in the 16-bit table for each half of `n`.
pub fn popcount_tabular_16(table: &Table16, n: u32) -> (r: u32)
    requires
        table.wf(),
    ensures
        r == bit_count(n as nat),
{
    let h0: u32 = (#[verifier::truncate] (n as u16)) as u32;
    let h1: u32 = n >> 16;
    assert({
        &&& (n as u16) as u32 == n & 0xffffu32
        &&& n >> 16u32 < 0x10000
        &&& bit_sum(n) == bit_sum(n & 0xffffu32) + bit_sum(n >> 16u32)
    }) by (bit_vector);
    proof {
        lemma_bit_sum(n);
        lemma_bit_sum(h0);
        lemma_bit_count_bound(h0);
        lemma_bit_sum(h1);
        lemma_bit_count_bound(h1);
    }
    table.entries[h0 as usize] + table.entries[h1 as usize]
}

} // verus!
