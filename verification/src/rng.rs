//! Deterministic random source: a seeded 64-bit generator whose state
//! advances by a fixed odd increment and whose output is the avalanche
//! mix of the advanced state. Two sources built from the same seed yield
//! the same sequence of draws.

use vstd::prelude::*;

verus! {

/// Additive state increment applied before every draw.
pub const GOLDEN_GAMMA: u64 = 0x9E3779B97F4A7C15;

/// First multiplier of the avalanche mix.
pub const MIX_MUL_1: u64 = 0xBF58476D1CE4E5B9;

/// Second multiplier of the avalanche mix.
pub const MIX_MUL_2: u64 = 0x94D049BB133111EB;

/// State advance: wrapping addition of the fixed increment.
pub open spec fn spec_advance(x: u64) -> u64 {
    x.wrapping_add(GOLDEN_GAMMA)
}

/// Avalanche mix: multiply-xorshift-multiply-xorshift of the state.
pub open spec fn spec_mix(z: u64) -> u64 {
    let a = (z ^ (z >> 30)).wrapping_mul(MIX_MUL_1);
    let b = (a ^ (a >> 27)).wrapping_mul(MIX_MUL_2);
    b ^ (b >> 31)
}

/// State of a source seeded with `seed` after `n` draws.
pub open spec fn spec_state_after(seed: u64, n: nat) -> u64
    decreases n,
{
    if n == 0 {
        seed
    } else {
        spec_advance(spec_state_after(seed, (n - 1) as nat))
    }
}

/// The `i`-th draw (0-indexed) of a source seeded with `seed`.
pub open spec fn spec_draw(seed: u64, i: nat) -> u64 {
    spec_mix(spec_state_after(seed, i + 1))
}

/// A seeded pseudo-random source of 64-bit values.
pub struct SplitMix64 {
    state: u64,
}

impl SplitMix64 {
    /// The current internal state.
    pub closed spec fn view(&self) -> u64 {
        self.state
    }

    /// Draw the next value: advance the state, return its mix.
    pub fn next(&mut self) -> (r: u64)
        ensures
            final(self)@ == spec_advance(old(self)@),
            r == spec_mix(final(self)@),
            r == spec_draw(old(self)@, 0),
    {
        proof {
            reveal_with_fuel(spec_state_after, 2);
        }
        self.state = self.state.wrapping_add(GOLDEN_GAMMA);
        let z0 = self.state;
        let z1 = (z0 ^ (z0 >> 30)).wrapping_mul(MIX_MUL_1);
        let z2 = (z1 ^ (z1 >> 27)).wrapping_mul(MIX_MUL_2);
        z2 ^ (z2 >> 31)
    }
}

/// Build a source from a seed. Sources built from equal seeds draw
/// equal sequences.
pub fn splitmix64(seed: u64) -> (r: SplitMix64)
    ensures
        r@ == seed,
{
    SplitMix64 { state: seed }
}

} // verus!
