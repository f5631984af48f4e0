//! The deterministic sampler that drives every stochastic choice of the
//! kernel.  A two-component integer seed is folded through fixed
//! multiplicative constants and advanced with two incommensurate additive
//! constants, each wrapped by its own period so the walk does not fall into a
//! short cycle.  The same seed always reproduces the same sequence.

use vstd::prelude::*;
use crate::fx::FX_ONE;

verus! {

#[derive(Clone, Copy, Debug, PartialEq, Eq, Structural)]
pub struct Rng {
    pub s0: u32,
    pub s1: u32,
}

/// The raw draw produced from a seed: a value in `[0, FX_ONE)`.
#[verifier::opaque]
pub open spec fn rng_raw_s(r: Rng) -> int {
    (((r.s0 * 129898 + r.s1 * 782330) % 4294967291) * 48271) % 65536
}

/// The seed that follows a draw: the generated value is folded back in and
/// each component is wrapped by its own period.
#[verifier::opaque]
pub open spec fn rng_next_s(r: Rng) -> Rng {
    Rng {
        s0: ((r.s0 + rng_raw_s(r) + 17825) % 3718000) as u32,
        s1: ((r.s1 + rng_raw_s(r) + 72786) % 1739000) as u32,
    }
}

/// The signed draw, in `[-FX_ONE, FX_ONE)`.
pub open spec fn rng_signed_s(r: Rng) -> int {
    2 * rng_raw_s(r) - 65536
}

impl Rng {
    pub fn new(s0: u32, s1: u32) -> (r: Rng)
        ensures
            r == (Rng { s0, s1 }),
    {
        Rng { s0, s1 }
    }

    /// One signed draw in `[-1, 1)`, advancing the seed.
    pub fn gen_signed(&mut self) -> (r: i64)
        ensures
            r as int == rng_signed_s(*old(self)),
            *final(self) == rng_next_s(*old(self)),
            -FX_ONE <= r < FX_ONE,
    {
        proof {
            reveal(rng_raw_s);
            reveal(rng_next_s);
        }
        let t: u64 = ((self.s0 as u64) * 129898 + (self.s1 as u64) * 782330) % 4294967291;
        let g: u64 = (t * 48271) % 65536;
        self.s0 = (((self.s0 as u64) + g + 17825) % 3718000) as u32;
        self.s1 = (((self.s1 as u64) + g + 72786) % 1739000) as u32;
        2 * (g as i64) - FX_ONE
    }

    /// One draw in `[0, 1)`, advancing the seed.
    pub fn gen(&mut self) -> (r: i64)
        ensures
            r as int == rng_raw_s(*old(self)),
            *final(self) == rng_next_s(*old(self)),
            0 <= r < FX_ONE,
    {
        let g: i64 = self.gen_signed();
        (((g + FX_ONE) as u64) / 2) as i64
    }
}

} // verus!
