//! A minimal deterministic PRNG (xorshift64*).

use vstd::prelude::*;

verus! {

/// One xorshift step of the state.
pub open spec fn xorshift(x: u64) -> u64 {
    let a = x ^ (x >> 12u64);
    let b = a ^ (a << 25u64);
    b ^ (b >> 27u64)
}

/// The value returned alongside a new state.
pub open spec fn scramble(x: u64) -> u64 {
    x.wrapping_mul(0x2545_F491_4F6C_DD1Du64)
}

/// A small, fast, seedable pseudo-random generator (xorshift64*).
///
/// Not cryptographically secure; intended only for reproducible self-play.
pub struct SmallRng(u64);

impl View for SmallRng {
    type V = u64;

    /// The generator's state.
    closed spec fn view(&self) -> u64 {
        self.0
    }
}

impl SmallRng {
    /// Seed the generator. A zero seed is nudged to 1, since xorshift is stuck
    /// at zero.
    pub fn new(seed: u64) -> (r: SmallRng)
        ensures
            r@ == (if seed == 0 { 1 } else { seed }),
    {
        SmallRng(if seed == 0 { 1 } else { seed })
    }

    /// Next pseudo-random 64-bit value, advancing the state.
    pub fn next_u64(&mut self) -> (r: u64)
        ensures
            final(self)@ == xorshift(old(self)@),
            r == scramble(xorshift(old(self)@)),
    {
        let mut x = self.0;
        x ^= x >> 12;
        x ^= x << 25;
        x ^= x >> 27;
        self.0 = x;
        x.wrapping_mul(0x2545_F491_4F6C_DD1D)
    }

    /// A value in `0..bound`.
    pub fn below(&mut self, bound: usize) -> (r: usize)
        requires
            bound > 0,
        ensures
            final(self)@ == xorshift(old(self)@),
            r == scramble(xorshift(old(self)@)) % (bound as u64),
            r < bound,
    {
        let v = self.next_u64();
        (v % bound as u64) as usize
    }
}

/// A nonzero state stays nonzero under xorshift, so the generator never gets
/// stuck.
pub proof fn lemma_xorshift_nonzero(x: u64)
    requires
        x != 0,
    ensures
        xorshift(x) != 0,
{
    let a = x ^ (x >> 12u64);
    let b = a ^ (a << 25u64);
    assert(x != 0 ==> x ^ (x >> 12u64) != 0) by (bit_vector);
    assert(a != 0 ==> a ^ (a << 25u64) != 0) by (bit_vector);
    assert(b != 0 ==> b ^ (b >> 27u64) != 0) by (bit_vector);
}

} // verus!
