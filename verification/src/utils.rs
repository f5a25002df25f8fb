//! A small deterministic random number generator.
//!
//! The generator is SplitMix64. Its whole state is one word, which the
//! caller owns and passes along: two runs from the same seed draw the same
//! numbers.

use vstd::prelude::*;

verus! {

/// The generator: its view is the state word.
#[derive(Clone, Copy, Debug, PartialEq, Eq, Structural)]
pub struct Rng {
    state: u64,
}

/// The state that follows `s`.
pub open spec fn advanced(s: u64) -> u64 {
    s.wrapping_add(0x9e37_79b9_7f4a_7c15)
}

/// The state that follows `s` after `n` draws.
pub open spec fn advanced_by(s: u64, n: nat) -> u64
    decreases n,
{
    if n == 0 {
        s
    } else {
        advanced_by(advanced(s), (n - 1) as nat)
    }
}

/// Draws add up: `b` draws after `a` draws are `a + b` draws.
pub proof fn lemma_advanced_by(s: u64, a: nat, b: nat)
    ensures
        advanced_by(advanced_by(s, a), b) == advanced_by(s, a + b),
    decreases a,
{
    if a > 0 {
        lemma_advanced_by(advanced(s), (a - 1) as nat, b);
    }
}

/// The word that a generator in state `s` hands out.
pub open spec fn mixed(s: u64) -> u64 {
    let z1 = (s ^ (s >> 30)).wrapping_mul(0xbf58_476d_1ce4_e5b9);
    let z2 = (z1 ^ (z1 >> 27)).wrapping_mul(0x94d0_49bb_1331_11eb);
    z2 ^ (z2 >> 31)
}

/// The number between `min` and `max`, the latter excluded, that a generator
/// draws which has just moved to state `s`.
pub open spec fn ranged(s: u64, min: int, max: int) -> int {
    min + (mixed(s) as int) % (max - min)
}

impl Rng {
    pub closed spec fn view(self) -> u64 {
        self.state
    }

    /// A generator that starts from `seed`.
    pub fn new(seed: u64) -> (r: Self)
        ensures
            r@ == seed,
    {
        Rng { state: seed }
    }

    /// The state word, with which a generator can be made again.
    pub fn state(&self) -> (r: u64)
        ensures
            r == self@,
    {
        self.state
    }

    /// Draws 64 bits.
    pub fn next_u64(&mut self) -> (r: u64)
        ensures
            final(self)@ == advanced(old(self)@),
            r == mixed(final(self)@),
    {
        self.state = self.state.wrapping_add(0x9e37_79b9_7f4a_7c15);
        let s = self.state;
        let z1 = (s ^ (s >> 30)).wrapping_mul(0xbf58_476d_1ce4_e5b9);
        let z2 = (z1 ^ (z1 >> 27)).wrapping_mul(0x94d0_49bb_1331_11eb);
        z2 ^ (z2 >> 31)
    }

    /// Draws an integer from `min` up to, but not including, `max`.
    pub fn random_range(&mut self, min: usize, max: usize) -> (r: usize)
        requires
            min < max,
        ensures
            final(self)@ == advanced(old(self)@),
            r == ranged(final(self)@, min as int, max as int),
            min <= r < max,
    {
        let span: u64 = (max - min) as u64;
        let word = self.next_u64();
        min + (word % span) as usize
    }
}

} // verus!
