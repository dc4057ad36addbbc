use vstd::prelude::*;

use crate::algorithms::{
    popcount_2, popcount_3, popcount_4, popcount_6, popcount_8, popcount_anderson,
    popcount_hakmem, popcount_keane, popcount_mult, popcount_naive, popcount_rs,
};
use crate::bits::bit_count;
use crate::tables::{popcount_tabular_16, popcount_tabular_8, Table16, Table8};

verus! {

/// The number of words in the block that each algorithm is driven over.
pub const BLOCKSIZE: usize = 1000;

/// The number of blocks of the warm-up run, before division by the divisor.
pub const PREHEAT_BASE: u32 = 5000;

/// The algorithms of the catalog, in catalog order.
#[derive(Clone, Copy, Debug, PartialEq, Eq, Structural)]
pub enum Algorithm {
    Naive,
    Eight,
    Six,
    Hakmem,
    Keane,
    Anderson,
    Three,
    Four,
    Two,
    Mult,
    Tabular8,
    Tabular16,
    Rs,
}

/// The whole catalog, in order.
pub open spec fn catalog() -> Seq<Algorithm> {
    seq![
        Algorithm::Naive,
        Algorithm::Eight,
        Algorithm::Six,
        Algorithm::Hakmem,
        Algorithm::Keane,
        Algorithm::Anderson,
        Algorithm::Three,
        Algorithm::Four,
        Algorithm::Two,
        Algorithm::Mult,
        Algorithm::Tabular8,
        Algorithm::Tabular16,
        Algorithm::Rs,
    ]
}

/// The whole catalog, in order.
pub fn drivers() -> (r: Vec<Algorithm>)
    ensures
        r@ == catalog(),
{
    let r = vec![
        Algorithm::Naive,
        Algorithm::Eight,
        Algorithm::Six,
        Algorithm::Hakmem,
        Algorithm::Keane,
        Algorithm::Anderson,
        Algorithm::Three,
        Algorithm::Four,
        Algorithm::Two,
        Algorithm::Mult,
        Algorithm::Tabular8,
        Algorithm::Tabular16,
        Algorithm::Rs,
    ];
    assert(r@ =~= catalog());
    r
}

impl Algorithm {
    /// The name under which results are reported.
    pub open spec fn spec_name(self) -> Seq<char> {
        match self {
            Algorithm::Naive => "popcount_naive"@,
            Algorithm::Eight => "popcount_8"@,
            Algorithm::Six => "popcount_6"@,
            Algorithm::Hakmem => "popcount_hakmem"@,
            Algorithm::Keane => "popcount_keane"@,
            Algorithm::Anderson => "popcount_anderson"@,
            Algorithm::Three => "popcount_3"@,
            Algorithm::Four => "popcount_4"@,
            Algorithm::Two => "popcount_2"@,
            Algorithm::Mult => "popcount_mult"@,
            Algorithm::Tabular8 => "popcount_tabular_8"@,
            Algorithm::Tabular16 => "popcount_tabular_16"@,
            Algorithm::Rs => "popcount_rs"@,
        }
    }

    /// How many times fewer blocks this algorithm is driven over than requested:
    /// slower algorithms get larger divisors.
    pub open spec fn spec_divisor(self) -> u32 {
        match self {
            Algorithm::Naive => 16,
            Algorithm::Anderson => 6,
            Algorithm::Rs => 1,
            _ => 4,
        }
    }

    /// The name under which results are reported.
    pub fn name(&self) -> (r: &'static str)
        ensures
            r@ == self.spec_name(),
    {
        match self {
            Algorithm::Naive => "popcount_naive",
            Algorithm::Eight => "popcount_8",
            Algorithm::Six => "popcount_6",
            Algorithm::Hakmem => "popcount_hakmem",
            Algorithm::Keane => "popcount_keane",
            Algorithm::Anderson => "popcount_anderson",
            Algorithm::Three => "popcount_3",
            Algorithm::Four => "popcount_4",
            Algorithm::Two => "popcount_2",
            Algorithm::Mult => "popcount_mult",
            Algorithm::Tabular8 => "popcount_tabular_8",
            Algorithm::Tabular16 => "popcount_tabular_16",
            Algorithm::Rs => "popcount_rs",
        }
    }

    /// The iteration divisor of this algorithm; never zero.
    pub fn divisor(&self) -> (r: u32)
        ensures
            r == self.spec_divisor(),
            r > 0,
    {
        match self {
            Algorithm::Naive => 16,
            Algorithm::Anderson => 6,
            Algorithm::Rs => 1,
            _ => 4,
        }
    }

    /// Counts the one bits of `n` with this algorithm.
    pub fn evaluate(&self, table8: &Table8, table16: &Table16, n: u32) -> (r: u32)
        requires
            table8.wf(),
            table16.wf(),
        ensures
            r == bit_count(n as nat),
    {
        match self {
            Algorithm::Naive => popcount_naive(n),
            Algorithm::Eight => popcount_8(n),
            Algorithm::Six => popcount_6(n),
            Algorithm::Hakmem => popcount_hakmem(n),
            Algorithm::Keane => popcount_keane(n),
            Algorithm::Anderson => popcount_anderson(n),
            Algorithm::Three => popcount_3(n),
            Algorithm::Four => popcount_4(n),
            Algorithm::Two => popcount_2(n),
            Algorithm::Mult => popcount_mult(n),
            Algorithm::Tabular8 => popcount_tabular_8(table8, n),
            Algorithm::Tabular16 => popcount_tabular_16(table16, n),
            Algorithm::Rs => popcount_rs(n),
        }
    }
}

} // verus!
