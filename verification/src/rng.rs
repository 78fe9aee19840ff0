//! A seedable, splittable-counter pseudo-random generator.
//!
//! The simulation injects an explicit random source into every randomized
//! operation instead of relying on ambient randomness, so an episode is a
//! deterministic function of its seed. The generator is the 64-bit
//! add-a-constant / bit-mix design (splitmix64): good enough statistics for a
//! simulation, and simple enough that its step is specified exactly.

use vstd::prelude::*;

verus! {

pub const TWO64: u128 = 0x1_0000_0000_0000_0000;

pub const RNG_GAMMA: u64 = 0x9E37_79B9_7F4A_7C15;

pub const RNG_MIX_A: u64 = 0xBF58_476D_1CE4_E5B9;

pub const RNG_MIX_B: u64 = 0x94D0_49BB_1331_11EB;

/// Addition modulo 2^64.
pub open spec fn wrap_add64(a: u64, b: u64) -> u64 {
    (((a as int) + (b as int)) % (TWO64 as int)) as u64
}

/// Multiplication modulo 2^64.
pub open spec fn wrap_mul64(a: u64, b: u64) -> u64 {
    (((a as int) * (b as int)) % (TWO64 as int)) as u64
}

/// The output function applied to a counter value.
pub open spec fn spec_mix64(s: u64) -> u64 {
    let z0 = wrap_mul64(s ^ (s >> 30u64), RNG_MIX_A);
    let z1 = wrap_mul64(z0 ^ (z0 >> 27u64), RNG_MIX_B);
    z1 ^ (z1 >> 31u64)
}

/// The counter value after one draw.
pub open spec fn spec_rng_next_state(s: u64) -> u64 {
    wrap_add64(s, RNG_GAMMA)
}

/// The counter value after `k` draws.
pub open spec fn spec_rng_iter(s: u64, k: nat) -> u64
    decreases k,
{
    if k == 0 {
        s
    } else {
        spec_rng_next_state(spec_rng_iter(s, (k - 1) as nat))
    }
}

/// The value of a signed unit draw made at state `s` (after advancing):
/// uniform over `[-FX_ONE, FX_ONE]`.
pub open spec fn spec_signed_unit_draw(s: u64) -> int {
    (spec_mix64(s) as int) % (2 * (crate::fixed::FX_ONE as int) + 1) - crate::fixed::FX_ONE as int
}

/// An explicit, seedable random source.
pub struct Rng {
    pub state: u64,
}

impl Rng {
    /// A generator whose whole future output is determined by `seed`.
    pub fn new(seed: u64) -> (r: Rng)
        ensures
            r.state == seed,
    {
        Rng { state: seed }
    }

    /// Draws one 64-bit value; the result and the successor state are exact
    /// functions of the previous state.
    pub fn next_u64(&mut self) -> (r: u64)
        ensures
            final(self).state == spec_rng_next_state(old(self).state),
            r == spec_mix64(final(self).state),
    {
        let s: u64 = ((self.state as u128 + RNG_GAMMA as u128) % TWO64) as u64;
        self.state = s;
        let z0: u64 = (((s ^ (s >> 30u64)) as u128 * RNG_MIX_A as u128) % TWO64) as u64;
        let z1: u64 = (((z0 ^ (z0 >> 27u64)) as u128 * RNG_MIX_B as u128) % TWO64) as u64;
        z1 ^ (z1 >> 31u64)
    }

    /// Draws a value uniformly distributed over `[0, n)`.
    pub fn next_below(&mut self, n: u64) -> (r: u64)
        requires
            n > 0,
        ensures
            r < n,
            final(self).state == spec_rng_next_state(old(self).state),
            r == spec_mix64(final(self).state) % n,
    {
        let v = self.next_u64();
        v % n
    }

    /// Draws a fixed-point value uniformly distributed over `[0, FX_ONE)`,
    /// the analogue of a uniform draw from `[0, 1)`.
    pub fn next_unit_fx(&mut self) -> (r: i64)
        ensures
            0 <= r < crate::fixed::FX_ONE,
            final(self).state == spec_rng_next_state(old(self).state),
            r == spec_mix64(final(self).state) as int % (crate::fixed::FX_ONE as int),
    {
        let v = self.next_below(crate::fixed::FX_ONE as u64);
        v as i64
    }

    /// Draws a fixed-point value uniformly distributed over `[-FX_ONE, FX_ONE]`.
    pub fn next_signed_unit_fx(&mut self) -> (r: i64)
        ensures
            -crate::fixed::FX_ONE <= r <= crate::fixed::FX_ONE,
            final(self).state == spec_rng_next_state(old(self).state),
            r == spec_signed_unit_draw(final(self).state),
    {
        let v = self.next_below(2 * crate::fixed::FX_ONE as u64 + 1);
        (v as i64) - crate::fixed::FX_ONE
    }
}

} // verus!
