//! Fixed-point scalars.
//!
//! A quantity of 1.0 is represented by [`FX_ONE`] micro-units. Products of two
//! fixed-point values are rescaled by a truncating division ([`fx_mul`]), the
//! integer analogue of floating-point multiplication that always rounds
//! towards zero.

use vstd::prelude::*;

verus! {

/// One whole unit (the real number 1.0) in micro-units.
pub const FX_ONE: i64 = 1_000_000;

/// Truncating (round-towards-zero) division, the semantics of `/` on the
/// machine integers. For non-negative `a` it coincides with floor division.
pub open spec fn tdiv(a: int, b: int) -> int
    recommends
        b > 0,
{
    if a >= 0 {
        a / b
    } else {
        -((-a) / b)
    }
}

/// The mathematical value of a rescaled fixed-point product.
pub open spec fn spec_fx_mul(a: int, b: int) -> int {
    tdiv(a * b, FX_ONE as int)
}

/// Clamping an integer into an interval.
pub open spec fn spec_clamp(v: int, lo: int, hi: int) -> int
    recommends
        lo <= hi,
{
    if v < lo {
        lo
    } else if v > hi {
        hi
    } else {
        v
    }
}

/// Fixed-point multiplication: `a * b` rescaled to micro-units, rounding
/// towards zero. The full product is formed in 128 bits, so the only demand
/// on the inputs is that the rescaled result fits an `i64`.
pub fn fx_mul(a: i64, b: i64) -> (r: i64)
    requires
        i64::MIN <= spec_fx_mul(a as int, b as int) <= i64::MAX,
    ensures
        r == spec_fx_mul(a as int, b as int),
{
    let p: i128 = (a as i128) * (b as i128);
    if p >= 0 {
        let q: i128 = p / (FX_ONE as i128);
        assert(q == tdiv(a as int * b as int, FX_ONE as int));
        q as i64
    } else {
        let q: i128 = (-p) / (FX_ONE as i128);
        assert(-q == tdiv(a as int * b as int, FX_ONE as int));
        (-q) as i64
    }
}

/// Rescales a doubly-scaled value back to micro-units, rounding towards
/// zero: the final step of a fixed-point product formed by hand.
pub fn fx_rescale(v: i64) -> (r: i64)
    requires
        v > i64::MIN,
    ensures
        r == tdiv(v as int, FX_ONE as int),
{
    if v >= 0 {
        v / FX_ONE
    } else {
        -((-v) / FX_ONE)
    }
}

/// The fixed-point ratio `a / b`: the numerator is promoted to micro-units
/// before the truncating division.
pub fn fx_ratio(a: i64, b: i64) -> (r: i64)
    requires
        b > 0,
        i64::MIN <= tdiv(a as int * FX_ONE as int, b as int) <= i64::MAX,
    ensures
        r == tdiv(a as int * FX_ONE as int, b as int),
{
    let p: i128 = (a as i128) * (FX_ONE as i128);
    if p >= 0 {
        let q: i128 = p / (b as i128);
        assert(q == tdiv(a as int * FX_ONE as int, b as int));
        q as i64
    } else {
        let q: i128 = (-p) / (b as i128);
        assert(-q == tdiv(a as int * FX_ONE as int, b as int));
        (-q) as i64
    }
}

/// Clamps `v` into `[lo, hi]`.
pub fn clamp_i64(v: i64, lo: i64, hi: i64) -> (r: i64)
    requires
        lo <= hi,
    ensures
        r == spec_clamp(v as int, lo as int, hi as int),
{
    if v < lo {
        lo
    } else if v > hi {
        hi
    } else {
        v
    }
}

/// Rescaling a product of factors in `[0, FX_ONE]` never grows the first
/// factor: the discrete analogue of `c * d <= c` for `d <= 1`.
pub proof fn lemma_fx_mul_le(c: int, d: int)
    requires
        0 <= c,
        0 <= d <= FX_ONE as int,
    ensures
        0 <= spec_fx_mul(c, d) <= c,
{
    assert(c * d >= 0) by (nonlinear_arith)
        requires
            0 <= c,
            0 <= d,
    ;
    assert(c * d <= c * (FX_ONE as int)) by (nonlinear_arith)
        requires
            0 <= c,
            d <= FX_ONE as int,
    ;
    assert((c * d) / (FX_ONE as int) <= (c * (FX_ONE as int)) / (FX_ONE as int))
        by (nonlinear_arith)
        requires
            c * d <= c * (FX_ONE as int),
    ;
    assert((c * (FX_ONE as int)) / (FX_ONE as int) == c) by (nonlinear_arith);
    assert((c * d) / (FX_ONE as int) >= 0) by (nonlinear_arith)
        requires
            c * d >= 0,
    ;
}

} // verus!
