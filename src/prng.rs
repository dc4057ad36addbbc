use vstd::prelude::*;

verus! {

// Pierre L'Ecuyer, Tables of Linear Congruential Generators of Different Sizes
// and Good Lattice Structure, Mathematics of Computation 68(225), 1999.
/// The modulus of the generator.
pub const M: u64 = 85876534675;

/// The multiplier of the generator.
pub const A: u64 = 116895888786;

/// The fixed seed from which every generator starts.
pub const SEED: u64 = 0x123456789abcdef0;

/// One step of the generator: multiply by `A` modulo 2^64, then reduce modulo `M`.
pub open spec fn lcg_step(s: u64) -> u64 {
    (((A as nat * s as nat) % 0x1_0000_0000_0000_0000) % (M as nat)) as u64
}

/// The state of a fresh generator.
pub open spec fn initial_state() -> u64 {
    lcg_step(SEED % M)
}

/// The state after `k` steps from `s`.
pub open spec fn state_after(s: u64, k: nat) -> u64
    decreases k,
{
    if k == 0 {
        s
    } else {
        lcg_step(state_after(s, (k - 1) as nat))
    }
}

/// The low 32 bits of a state: what a step hands out.
pub open spec fn low_word(s: u64) -> u32 {
    (s % 0x1_0000_0000) as u32
}

/// The first `k` values that a generator in state `s` hands out.
pub open spec fn outputs(s: u64, k: nat) -> Seq<u32>
    decreases k,
{
    if k == 0 {
        Seq::empty()
    } else {
        outputs(s, (k - 1) as nat).push(low_word(state_after(s, k)))
    }
}

/// A linear congruential pseudo-random generator that produces the same sequence
/// on every platform and in every run.
pub struct Prng {
    state: u64,
}

impl View for Prng {
    type V = u64;

    closed spec fn view(&self) -> u64 {
        self.state
    }
}

impl Prng {
    /// A generator in the state one step after the seed.
    pub fn new() -> (r: Prng)
        ensures
            r@ == initial_state(),
    {
        Prng { state: A.wrapping_mul(SEED % M) % M }
    }

    /// Advances the state by one step and returns the low 32 bits of the new state.
    pub fn next(&mut self) -> (r: u32)
        ensures
            final(self)@ == lcg_step(old(self)@),
            r == low_word(final(self)@),
    {
        let p: u64 = A.wrapping_mul(self.state);
        let s: u64 = p % M;
        self.state = s;
        assert(s & 0xffff_ffffu64 == s % 0x1_0000_0000) by (bit_vector);
        (s & 0xffff_ffff) as u32
    }
}

/// The block of random words for a benchmark run: the first `len` values of a
/// fresh generator.
pub fn random_block(len: usize) -> (r: Vec<u32>)
    ensures
        r@ == outputs(initial_state(), len as nat),
{
    let mut rng = Prng::new();
    let mut block: Vec<u32> = Vec::with_capacity(len);
    let mut i: usize = 0;
    while i < len
        invariant
            i <= len,
            rng@ == state_after(initial_state(), i as nat),
            block@ == outputs(initial_state(), i as nat),
        decreases len - i,
    {
        let x = rng.next();
        block.push(x);
        i += 1;
    }
    block
}

/// The generator is deterministic: two blocks of the same length drawn from fresh
/// generators are identical.
pub proof fn lemma_blocks_identical(a: Seq<u32>, b: Seq<u32>, len: nat)
    requires
        a == outputs(initial_state(), len),
        b == outputs(initial_state(), len),
    ensures
        a == b,
{
}

} // verus!
