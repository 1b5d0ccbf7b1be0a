//! The deterministic pseudo-random byte source the demosaic engine
//! uses for neighbor tie-breaking: a 64-bit xorshift generator,
//! explicitly seedable so runs are reproducible.

use vstd::prelude::*;

verus! {

/// The seed a sampler starts from when none is given; also replaces
/// an explicit zero seed, which would pin the xorshift state at zero.
pub const DEFAULT_SEED: u64 = 0x9e3779b97f4a7c15;

/// One 64-bit xorshift step: the successor of a sampler state.
pub open spec fn next_state(s: u64) -> u64 {
    let a = s ^ (s << 13);
    let b = a ^ (a >> 7);
    b ^ (b << 17)
}

/// A sequential pseudo-random byte source. Not cryptographic: its
/// only job is uniform-enough tie-breaking among demosaic neighbor
/// candidates, deterministic for a given seed.
pub struct RollingRandom {
    state: u64,
}

impl View for RollingRandom {
    type V = u64;

    closed spec fn view(&self) -> u64 {
        self.state
    }
}

impl RollingRandom {
    /// A sampler seeded with the default seed.
    pub fn new() -> (r: RollingRandom)
        ensures
            r@ == DEFAULT_SEED,
    {
        RollingRandom { state: DEFAULT_SEED }
    }

    /// A sampler with an explicit seed for reproducible runs; a zero
    /// seed falls back to the default so the state never sticks at
    /// zero.
    pub fn with_seed(seed: u64) -> (r: RollingRandom)
        ensures
            r@ == if seed == 0 {
                DEFAULT_SEED
            } else {
                seed
            },
    {
        if seed == 0 {
            RollingRandom { state: DEFAULT_SEED }
        } else {
            RollingRandom { state: seed }
        }
    }

    /// The next byte of the stream: advances the state one xorshift
    /// step and returns its low byte.
    pub fn random_u8(&mut self) -> (b: u8)
        ensures
            final(self)@ == next_state(old(self)@),
            b == next_state(old(self)@) as u8,
    {
        let s = self.state;
        let a = s ^ (s << 13u64);
        let b = a ^ (a >> 7u64);
        let n = b ^ (b << 17u64);
        self.state = n;
        n as u8
    }
}

} // verus!
