//! A small deterministic pseudo-random generator.
//!
//! Initial particle placement is sampled from this seedable linear
//! congruential generator, so that construction is a pure function of the
//! seed and simulations are reproducible. The step transition is stated
//! exactly, which makes every draw fully determined by the seed.

use vstd::prelude::*;

verus! {

/// Multiplier of the linear congruential step (Knuth's MMIX constant).
pub const LCG_MUL: u64 = 6364136223846793005;

/// Increment of the linear congruential step (Knuth's MMIX constant).
pub const LCG_INC: u64 = 1442695040888963407;

/// One linear congruential transition: `state * LCG_MUL + LCG_INC`,
/// reduced modulo 2^64.
pub open spec fn lcg_next(s: u64) -> u64 {
    (((s as int) * (LCG_MUL as int) + LCG_INC as int) % 0x1_0000_0000_0000_0000)
        as u64
}

/// A linear congruential generator over a 64-bit state.
pub struct Lcg {
    state: u64,
}

impl Lcg {
    /// The current state, as contracts speak of it.
    pub closed spec fn state_v(self) -> u64 {
        self.state
    }

    /// Starts the stream that the given seed determines.
    pub fn new(seed: u64) -> (r: Lcg)
        ensures
            r.state_v() == seed,
    {
        Lcg { state: seed }
    }

    /// Draws the next 64-bit value of the stream.
    pub fn next_u64(&mut self) -> (r: u64)
        ensures
            r == lcg_next(old(self).state_v()),
            final(self).state_v() == lcg_next(old(self).state_v()),
    {
        proof {
            assert((self.state as int) * (LCG_MUL as int)
                <= 0xffff_ffff_ffff_ffff * 6364136223846793005)
                by (nonlinear_arith)
                requires
                    self.state as int <= 0xffff_ffff_ffff_ffff,
                    LCG_MUL as int == 6364136223846793005,
            ;
        }
        let wide: u128 = (self.state as u128) * (LCG_MUL as u128) + (LCG_INC
            as u128);
        let reduced: u128 = wide % 0x1_0000_0000_0000_0000u128;
        let next: u64 = reduced as u64;
        self.state = next;
        next
    }

    /// Draws a value uniformly distributed below `bound`.
    pub fn next_below(&mut self, bound: u64) -> (r: u64)
        requires
            bound > 0,
        ensures
            r < bound,
            r == lcg_next(old(self).state_v()) as int % bound as int,
            final(self).state_v() == lcg_next(old(self).state_v()),
    {
        let drawn: u64 = self.next_u64();
        drawn % bound
    }
}

} // verus!
