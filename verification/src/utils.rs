//! Planar vectors in fixed point: normalization, rotation, and random
//! headings.
//!
//! A heading is an approximately unit vector whose components lie in
//! `[-FX_ONE, FX_ONE]`; rotations clamp back into that box, so the bound is
//! an invariant of every operation here.

use vstd::prelude::*;
use crate::fixed::{FX_ONE, tdiv, spec_clamp, fx_rescale, fx_ratio, clamp_i64};
use crate::trig::{FULL_TURN, spec_fx_sin, spec_fx_cos, fx_sin, fx_cos, angle_mod};
use crate::rng::{Rng, spec_mix64, spec_rng_next_state};

verus! {

/// The largest coordinate magnitude the geometry routines accept; generous
/// enough for any arena this crate can build.
pub const MAX_COORD: i64 = 1_000_000_000_000;

/// A point or direction in the plane, in micro-units.
#[derive(Clone, Copy, PartialEq, Eq, Debug)]
pub struct Vec2 {
    pub x: i64,
    pub y: i64,
}

/// Whether `r` is the integer square root of `n`.
pub open spec fn is_isqrt(n: int, r: int) -> bool {
    r >= 0 && r * r <= n && n < ((r + 1) * (r + 1))
}

/// The integer square root: the unique `r >= 0` with
/// `r * r <= n < ((r + 1) * (r + 1))`.
pub open spec fn spec_isqrt(n: int) -> int
    recommends
        n >= 0,
{
    choose|r: int| is_isqrt(n, r)
}

/// Any witness of the square-root property equals `spec_isqrt`.
pub proof fn lemma_isqrt_unique(n: int, r: int)
    requires
        r >= 0,
        r * r <= n,
        n < ((r + 1) * (r + 1)),
    ensures
        spec_isqrt(n) == r,
{
    assert(is_isqrt(n, r));
    let s = spec_isqrt(n);
    assert(is_isqrt(n, s));
    assert(r == s) by (nonlinear_arith)
        requires
            r >= 0,
            s >= 0,
            r * r <= n,
            n < ((r + 1) * (r + 1)),
            s * s <= n,
            n < ((s + 1) * (s + 1)),
    ;
}

/// Computes the integer square root by bisection.
pub fn isqrt_u128(n: u128) -> (r: u64)
    ensures
        r as int == spec_isqrt(n as int),
        (r as int) * (r as int) <= n as int,
        (r as int + 1) * (r as int + 1) > n as int,
{
    let mut lo: u128 = 0;
    let mut hi: u128 = 0x1_0000_0000_0000_0000;
    if n < hi {
        // For small inputs a tighter start keeps the bisection short.
        hi = n + 1;
        assert((hi as int) * (hi as int) > n as int) by (nonlinear_arith)
            requires
                hi as int == n as int + 1,
                n as int >= 0,
        ;
    } else {
        assert((hi as int) * (hi as int) > n as int) by (nonlinear_arith)
            requires
                hi as int == 0x1_0000_0000_0000_0000,
                (n as int) < (0x1_0000_0000_0000_0000 * 0x1_0000_0000_0000_0000),
        ;
    }
    while lo + 1 < hi
        invariant
            0 <= lo < hi <= 0x1_0000_0000_0000_0000,
            (lo as int) * (lo as int) <= n as int,
            (hi as int) * (hi as int) > n as int,
        decreases hi - lo,
    {
        let mid: u128 = lo + (hi - lo) / 2;
        assert(lo < mid < hi);
        assert((mid as int) * (mid as int) < (0x1_0000_0000_0000_0000 * 0x1_0000_0000_0000_0000))
            by (nonlinear_arith)
            requires
                0 <= (mid as int) < 0x1_0000_0000_0000_0000,
        ;
        if mid * mid <= n {
            lo = mid;
        } else {
            hi = mid;
        }
    }
    proof {
        lemma_isqrt_unique(n as int, lo as int);
    }
    lo as u64
}

/// The normalized direction of `(dx, dy)`: each component scaled to
/// micro-units of the vector's length, or the zero vector when there is no
/// direction to point in.
pub open spec fn spec_norm_dir(dx: int, dy: int) -> (int, int) {
    if dx == 0 && dy == 0 {
        (0, 0)
    } else {
        let n = spec_isqrt(dx * dx + dy * dy);
        (tdiv(dx * FX_ONE as int, n), tdiv(dy * FX_ONE as int, n))
    }
}

/// One component of the normalization is bounded by `FX_ONE`, because the
/// length is at least the component's magnitude.
proof fn lemma_component_bound(a: int, b: int, n: int)
    requires
        n >= 1,
        n * n <= a * a + b * b,
        a * a + b * b < ((n + 1) * (n + 1)),
    ensures
        -(FX_ONE as int) <= tdiv(a * FX_ONE as int, n) <= FX_ONE as int,
{
    // The root of the squared length dominates |a|.
    assert(-n <= a <= n) by (nonlinear_arith)
        requires
            n >= 1,
            a * a + b * b < ((n + 1) * (n + 1)),
    ;
    if a >= 0 {
        assert((a * FX_ONE as int) / n <= FX_ONE as int) by (nonlinear_arith)
            requires
                0 <= a <= n,
                n >= 1,
        ;
        assert((a * FX_ONE as int) / n >= 0) by (nonlinear_arith)
            requires
                a >= 0,
                n >= 1,
        ;
    } else {
        assert(((-a) * FX_ONE as int) / n <= FX_ONE as int) by (nonlinear_arith)
            requires
                0 <= -a <= n,
                n >= 1,
        ;
        assert(((-a) * FX_ONE as int) / n >= 0) by (nonlinear_arith)
            requires
                -a >= 0,
                n >= 1,
        ;
        assert(-(a * FX_ONE as int) == (-a) * FX_ONE as int) by (nonlinear_arith);
    }
}

/// Scales a vector to approximately unit length, component-wise in
/// micro-units; the zero vector stays zero.
pub fn normalize_array(v: Vec2) -> (r: Vec2)
    requires
        -MAX_COORD <= v.x <= MAX_COORD,
        -MAX_COORD <= v.y <= MAX_COORD,
    ensures
        (r.x as int, r.y as int) == spec_norm_dir(v.x as int, v.y as int),
        -FX_ONE <= r.x <= FX_ONE,
        -FX_ONE <= r.y <= FX_ONE,
{
    if v.x == 0 && v.y == 0 {
        Vec2 { x: 0, y: 0 }
    } else {
        proof {
            assert(0 <= (v.x as int) * (v.x as int) <= (MAX_COORD as int) * (MAX_COORD as int))
                by (nonlinear_arith)
                requires
                    -MAX_COORD <= (v.x as int) <= MAX_COORD,
            ;
            assert(0 <= (v.y as int) * (v.y as int) <= (MAX_COORD as int) * (MAX_COORD as int))
                by (nonlinear_arith)
                requires
                    -MAX_COORD <= (v.y as int) <= MAX_COORD,
            ;
        }
        let xx: i128 = (v.x as i128) * (v.x as i128);
        let yy: i128 = (v.y as i128) * (v.y as i128);
        let sq: i128 = xx + yy;
        let m: u128 = sq as u128;
        let n64: u64 = isqrt_u128(m);
        assert(n64 as int >= 1) by {
            assert(m as int > 0) by (nonlinear_arith)
                requires
                    !(v.x == 0 && v.y == 0),
                    m as int == v.x as int * v.x as int + v.y as int * v.y as int,
            ;
            assert(n64 as int >= 1) by (nonlinear_arith)
                requires
                    m as int > 0,
                    n64 as int >= 0,
                    (m as int) < ((n64 as int + 1) * (n64 as int + 1)),
            ;
        }
        assert(n64 < 0x8000_0000_0000_0000) by {
            assert((m as int) <= 2 * (MAX_COORD as int) * (MAX_COORD as int)) by (nonlinear_arith)
                requires
                    m as int == v.x as int * v.x as int + v.y as int * v.y as int,
                    -MAX_COORD <= (v.x as int) <= MAX_COORD,
                    -MAX_COORD <= (v.y as int) <= MAX_COORD,
            ;
            assert((n64 as int) <= 2_000_000_000_000) by (nonlinear_arith)
                requires
                    (n64 as int) * (n64 as int) <= m as int,
                    (m as int) <= 2 * (MAX_COORD as int) * (MAX_COORD as int),
                    n64 as int >= 0,
            ;
        }
        proof {
            lemma_component_bound(v.x as int, v.y as int, n64 as int);
            lemma_component_bound(v.y as int, v.x as int, n64 as int);
        }
        let n: i64 = n64 as i64;
        let x = fx_ratio(v.x, n);
        let y = fx_ratio(v.y, n);
        Vec2 { x, y }
    }
}

/// The unit direction that points from `point_1` towards `point_2`; the
/// zero vector when the points coincide.
pub fn get_direction_from_coords(point_1: Vec2, point_2: Vec2) -> (r: Vec2)
    requires
        -500_000_000_000 <= point_1.x <= 500_000_000_000,
        -500_000_000_000 <= point_1.y <= 500_000_000_000,
        -500_000_000_000 <= point_2.x <= 500_000_000_000,
        -500_000_000_000 <= point_2.y <= 500_000_000_000,
    ensures
        (r.x as int, r.y as int) == spec_norm_dir(
            point_2.x - point_1.x,
            point_2.y - point_1.y,
        ),
        -FX_ONE <= r.x <= FX_ONE,
        -FX_ONE <= r.y <= FX_ONE,
{
    let diff = Vec2 { x: point_2.x - point_1.x, y: point_2.y - point_1.y };
    normalize_array(diff)
}

/// The rotation of `(x, y)` by `t` micro-turns, with the result clamped
/// into the unit box.
pub open spec fn spec_rotate(x: int, y: int, t: int) -> (int, int)
    recommends
        0 <= t < FULL_TURN as int,
{
    let c = spec_fx_cos(t);
    let s = spec_fx_sin(t);
    (
        spec_clamp(tdiv(x * c - y * s, FX_ONE as int), -(FX_ONE as int), FX_ONE as int),
        spec_clamp(tdiv(x * s + y * c, FX_ONE as int), -(FX_ONE as int), FX_ONE as int),
    )
}

/// Rotates a heading by `angle` micro-turns: the standard planar rotation,
/// evaluated in fixed point and clamped back into the unit box.
pub fn rotate_array2(v: Vec2, angle: i64) -> (r: Vec2)
    requires
        0 <= angle < FULL_TURN,
        -FX_ONE <= v.x <= FX_ONE,
        -FX_ONE <= v.y <= FX_ONE,
    ensures
        (r.x as int, r.y as int) == spec_rotate(v.x as int, v.y as int, angle as int),
        -FX_ONE <= r.x <= FX_ONE,
        -FX_ONE <= r.y <= FX_ONE,
{
    let c = fx_cos(angle);
    let s = fx_sin(angle);
    assert(-1_000_000_000_000 <= v.x as int * (c as int) <= 1_000_000_000_000
        && -1_000_000_000_000 <= v.y as int * (s as int) <= 1_000_000_000_000
        && -1_000_000_000_000 <= v.x as int * (s as int) <= 1_000_000_000_000
        && -1_000_000_000_000 <= v.y as int * (c as int) <= 1_000_000_000_000)
        by (nonlinear_arith)
        requires
            -FX_ONE <= (v.x as int) <= FX_ONE,
            -FX_ONE <= (v.y as int) <= FX_ONE,
            -FX_ONE <= (c as int) <= FX_ONE,
            -FX_ONE <= (s as int) <= FX_ONE,
    ;
    let xr = fx_rescale(v.x * c - v.y * s);
    let yr = fx_rescale(v.x * s + v.y * c);
    Vec2 { x: clamp_i64(xr, -FX_ONE, FX_ONE), y: clamp_i64(yr, -FX_ONE, FX_ONE) }
}

/// A heading drawn uniformly over the whole circle: the cosine-sine pair of
/// a random angle.
pub fn random_unit_vector(rng: &mut Rng) -> (r: Vec2)
    ensures
        ({
            let t = spec_mix64(spec_rng_next_state(old(rng).state)) % (FULL_TURN as u64);
            r.x == spec_fx_cos(t as int) && r.y == spec_fx_sin(t as int)
        }),
        final(rng).state == spec_rng_next_state(old(rng).state),
        -FX_ONE <= r.x <= FX_ONE,
        -FX_ONE <= r.y <= FX_ONE,
{
    let t = rng.next_below(FULL_TURN as u64);
    let angle = t as i64;
    Vec2 { x: fx_cos(angle), y: fx_sin(angle) }
}

/// Rotates a heading by an angle drawn uniformly from
/// `[-range/2, range/2)` micro-turns.
pub fn random_rotation(rng: &mut Rng, v: Vec2, range: i64) -> (r: Vec2)
    requires
        0 < range <= FULL_TURN,
        -FX_ONE <= v.x <= FX_ONE,
        -FX_ONE <= v.y <= FX_ONE,
    ensures
        ({
            let u = (spec_mix64(spec_rng_next_state(old(rng).state)) % (range as u64)) as int;
            let t = (u - range as int / 2) % (FULL_TURN as int);
            (r.x as int, r.y as int) == spec_rotate(v.x as int, v.y as int, t)
        }),
        final(rng).state == spec_rng_next_state(old(rng).state),
        -FX_ONE <= r.x <= FX_ONE,
        -FX_ONE <= r.y <= FX_ONE,
{
    let u = rng.next_below(range as u64);
    let offset: i64 = (u as i64) - range / 2;
    let angle = angle_mod(offset);
    rotate_array2(v, angle)
}

} // verus!
