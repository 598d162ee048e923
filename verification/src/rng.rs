//! A small deterministic pseudo-random generator. Strategies that sample
//! (the uniform-random baseline and the Monte Carlo rollouts) draw from a
//! caller-seeded generator, so the sampling itself is ordinary verified
//! code.

use vstd::prelude::*;

verus! {

/// The next state of the generator: one xorshift round.
pub closed spec fn next_state(s: u64) -> u64 {
    let a = s ^ (s << 13);
    let b = a ^ (a >> 7);
    b ^ (b << 17)
}

/// A xorshift pseudo-random generator with 64 bits of state.
pub struct Rng {
    state: u64,
}

impl Rng {
    pub closed spec fn spec_state(self) -> u64 {
        self.state
    }

    /// A generator starting from the given seed.
    pub fn new(seed: u64) -> (r: Self)
        ensures
            r.spec_state() == seed,
    {
        Rng { state: seed }
    }

    /// Draws the next raw value and advances the state; both are functions
    /// of the previous state alone.
    pub fn next_u64(&mut self) -> (r: u64)
        ensures
            final(self).spec_state() == next_state(old(self).spec_state()),
            r == next_state(old(self).spec_state()),
    {
        let mut x = self.state;
        x = x ^ (x << 13);
        x = x ^ (x >> 7);
        x = x ^ (x << 17);
        self.state = x;
        x
    }

    /// Draws a value below `n`: the next raw value reduced modulo `n`.
    pub fn below(&mut self, n: usize) -> (r: usize)
        requires
            n > 0,
        ensures
            r < n,
            r == (next_state(old(self).spec_state()) % (n as u64)) as usize,
            final(self).spec_state() == next_state(old(self).spec_state()),
    {
        let x = self.next_u64();
        (x % (n as u64)) as usize
    }
}

} // verus!
