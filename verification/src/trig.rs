//! Fixed-point circular functions.
//!
//! Angles are measured in micro-turns: [`FULL_TURN`] micro-turns make one
//! full revolution, so a half turn stands for the real angle pi. Sine and
//! cosine are the classic quadratic (parabolic) approximation of the half
//! wave, computed exactly in integers; results lie in `[-FX_ONE, FX_ONE]`
//! and hit 0 and +/-FX_ONE exactly at the quadrant boundaries.

use vstd::prelude::*;
use crate::fixed::FX_ONE;

verus! {

/// One full revolution, in micro-turns.
pub const FULL_TURN: i64 = 1_000_000;

/// Half a revolution (the real angle pi).
pub const HALF_TURN: i64 = 500_000;

/// A quarter revolution (the real angle pi/2).
pub const QUARTER_TURN: i64 = 250_000;

/// The parabolic half-wave: the approximate sine of `t` micro-turns for
/// `t` in `[0, HALF_TURN]`.
pub open spec fn spec_sin_half_wave(t: int) -> int
    recommends
        0 <= t <= HALF_TURN as int,
{
    (4 * t * (HALF_TURN as int - t) * (FX_ONE as int)) / ((HALF_TURN as int) * (HALF_TURN as int))
}

/// The approximate sine of `t` micro-turns, for `t` in `[0, FULL_TURN)`.
pub open spec fn spec_fx_sin(t: int) -> int
    recommends
        0 <= t < FULL_TURN as int,
{
    if t <= HALF_TURN as int {
        spec_sin_half_wave(t)
    } else {
        -spec_sin_half_wave(t - HALF_TURN as int)
    }
}

/// The approximate cosine: the sine shifted by a quarter turn.
pub open spec fn spec_fx_cos(t: int) -> int
    recommends
        0 <= t < FULL_TURN as int,
{
    spec_fx_sin((t + QUARTER_TURN as int) % (FULL_TURN as int))
}

/// The half-wave value lies in `[0, FX_ONE]`.
pub proof fn lemma_sin_half_wave_bounds(t: int)
    requires
        0 <= t <= HALF_TURN as int,
    ensures
        0 <= spec_sin_half_wave(t) <= FX_ONE as int,
{
    let h = HALF_TURN as int;
    let f = FX_ONE as int;
    assert(0 <= 4 * t * (h - t) * f <= h * h * f) by (nonlinear_arith)
        requires
            0 <= t <= h,
            f > 0,
    ;
    assert((4 * t * (h - t) * f) / (h * h) >= 0) by (nonlinear_arith)
        requires
            4 * t * (h - t) * f >= 0,
            h > 0,
    ;
    assert((4 * t * (h - t) * f) / (h * h) <= (h * h * f) / (h * h)) by (nonlinear_arith)
        requires
            4 * t * (h - t) * f <= h * h * f,
            h > 0,
    ;
    assert((h * h * f) / (h * h) == f) by (nonlinear_arith)
        requires
            h > 0,
            f > 0,
    ;
}

/// The sine value lies in `[-FX_ONE, FX_ONE]`.
pub proof fn lemma_fx_sin_bounds(t: int)
    requires
        0 <= t < FULL_TURN as int,
    ensures
        -(FX_ONE as int) <= spec_fx_sin(t) <= FX_ONE as int,
{
    if t <= HALF_TURN as int {
        lemma_sin_half_wave_bounds(t);
    } else {
        lemma_sin_half_wave_bounds(t - HALF_TURN as int);
    }
}

/// Reduces an angle into `[0, FULL_TURN)`, the representative of its class
/// modulo one revolution.
pub fn angle_mod(a: i64) -> (r: i64)
    requires
        -FULL_TURN <= a <= i64::MAX - FULL_TURN,
    ensures
        r == (a as int) % (FULL_TURN as int),
        0 <= r < FULL_TURN,
{
    let b: i64 = a + FULL_TURN;
    let r: i64 = b % FULL_TURN;
    assert(r == (a as int) % (FULL_TURN as int)) by (nonlinear_arith)
        requires
            b == a + FULL_TURN,
            b >= 0,
            r == (b as int) % (FULL_TURN as int),
            FULL_TURN > 0,
    ;
    r
}

/// The approximate sine of `t` micro-turns.
pub fn fx_sin(t: i64) -> (r: i64)
    requires
        0 <= t < FULL_TURN,
    ensures
        r == spec_fx_sin(t as int),
        -FX_ONE <= r <= FX_ONE,
{
    proof {
        lemma_fx_sin_bounds(t as int);
    }
    if t <= HALF_TURN {
        proof {
            lemma_sin_half_wave_bounds(t as int);
        }
        (4 * t * (HALF_TURN - t) * FX_ONE) / (HALF_TURN * HALF_TURN)
    } else {
        let u: i64 = t - HALF_TURN;
        proof {
            lemma_sin_half_wave_bounds(u as int);
        }
        -((4 * u * (HALF_TURN - u) * FX_ONE) / (HALF_TURN * HALF_TURN))
    }
}

/// The approximate cosine of `t` micro-turns.
pub fn fx_cos(t: i64) -> (r: i64)
    requires
        0 <= t < FULL_TURN,
    ensures
        r == spec_fx_cos(t as int),
        -FX_ONE <= r <= FX_ONE,
{
    let shifted = angle_mod(t + QUARTER_TURN);
    fx_sin(shifted)
}

} // verus!
