//! Integer trigonometry at whole-degree granularity.
//!
//! `sin_deg` evaluates Bhaskara's rational approximation of the sine,
//! scaled by `DIR_SCALE`: for `0 <= d <= 180` the half wave is
//! `40000*d*(180-d) / (40500 - d*(180-d))`, which is exact at 0, 30, 90,
//! 150 and 180 degrees and within 0.2% elsewhere. The second half wave is
//! its negation. All values lie in `[-DIR_SCALE, DIR_SCALE]`.

use crate::math::{scale, scale_spec, Vec2i};
use crate::{DIR_SCALE, SPAWN_RADIUS};
use vstd::arithmetic::div_mod::{lemma_div_is_ordered, lemma_div_pos_is_pos};
use vstd::prelude::*;

verus! {

/// The sine on `[0, 180]` degrees, scaled by `DIR_SCALE`.
pub open spec fn half_wave(d: int) -> int
    recommends
        0 <= d <= 180,
{
    (40000 * d * (180 - d)) / (40500 - d * (180 - d))
}

/// The sine on `[0, 360)` degrees, scaled by `DIR_SCALE`.
pub open spec fn sin_deg_spec(d: int) -> int
    recommends
        0 <= d < 360,
{
    if d <= 180 {
        half_wave(d)
    } else {
        -half_wave(d - 180)
    }
}

/// The cosine on `[0, 360)` degrees, scaled by `DIR_SCALE`: the sine a
/// quarter turn ahead.
pub open spec fn cos_deg_spec(d: int) -> int
    recommends
        0 <= d < 360,
{
    sin_deg_spec((d + 90) % 360)
}

/// The half wave lies in `[0, DIR_SCALE]`.
pub proof fn lemma_half_wave_bounds(d: int)
    requires
        0 <= d <= 180,
    ensures
        0 <= half_wave(d) <= DIR_SCALE,
{
    let q = d * (180 - d);
    assert(0 <= d * (180 - d) <= 8100) by (nonlinear_arith)
        requires
            0 <= d <= 180,
    ;
    assert(40000 * d * (180 - d) == 40000 * (d * (180 - d))) by (nonlinear_arith);
    assert(40000 * q >= 0);
    assert(40500 - q >= 32400);
    lemma_div_pos_is_pos(40000 * q, 40500 - q);
    assert(40000 * q <= 10000 * (40500 - q));
    lemma_div_is_ordered(40000 * q, 10000 * (40500 - q), 40500 - q);
    vstd::arithmetic::div_mod::lemma_div_multiples_vanish(10000, 40500 - q);
    assert((10000 * (40500 - q)) / (40500 - q) == 10000);
}

/// Evaluate the half wave for `0 <= d <= 180`.
fn half_wave_exec(d: u64) -> (r: i64)
    requires
        d <= 180,
    ensures
        r == half_wave(d as int),
        0 <= r <= DIR_SCALE,
{
    proof {
        assert(d * (180 - d) <= 8100) by (nonlinear_arith)
            requires
                d <= 180,
        ;
        assert(40000 * ((d as int) * (180 - d as int)) == 40000 * (d as int) * (180 - d as int))
            by (nonlinear_arith);
        lemma_half_wave_bounds(d as int);
    }
    let q: u64 = d * (180 - d);
    let num: u64 = 40000 * q;
    let den: u64 = 40500 - q;
    (num / den) as i64
}

/// The sine of a whole-degree angle, scaled by `DIR_SCALE`.
pub fn sin_deg(d: u64) -> (r: i64)
    requires
        d < 360,
    ensures
        r == sin_deg_spec(d as int),
        -DIR_SCALE <= r <= DIR_SCALE,
{
    if d <= 180 {
        half_wave_exec(d)
    } else {
        -half_wave_exec(d - 180)
    }
}

/// The cosine of a whole-degree angle, scaled by `DIR_SCALE`.
pub fn cos_deg(d: u64) -> (r: i64)
    requires
        d < 360,
    ensures
        r == cos_deg_spec(d as int),
        -DIR_SCALE <= r <= DIR_SCALE,
{
    let shifted = if d < 270 {
        d + 90
    } else {
        d - 270
    };
    sin_deg(shifted)
}

/// The x component of the forward unit vector of a ship rotated `deg`
/// degrees counterclockwise from `+Y`, scaled by `DIR_SCALE`.
pub open spec fn heading_x(deg: int) -> int {
    -sin_deg_spec(deg)
}

/// The y component of the forward unit vector, scaled by `DIR_SCALE`.
pub open spec fn heading_y(deg: int) -> int {
    cos_deg_spec(deg)
}

/// The forward unit vector as a `Vec2i`, scaled by `DIR_SCALE`.
pub open spec fn heading_vec(deg: int) -> Vec2i
    recommends
        0 <= deg < 360,
{
    Vec2i { x: heading_x(deg) as i64, y: heading_y(deg) as i64 }
}

/// Compute the forward unit vector for a whole-degree rotation.
pub fn heading(deg: u64) -> (v: Vec2i)
    requires
        deg < 360,
    ensures
        v == heading_vec(deg as int),
        -DIR_SCALE <= v.x <= DIR_SCALE,
        -DIR_SCALE <= v.y <= DIR_SCALE,
{
    proof {
        if deg as int <= 180 {
            lemma_half_wave_bounds(deg as int);
        } else {
            lemma_half_wave_bounds(deg as int - 180);
        }
    }
    let s = sin_deg(deg);
    let c = cos_deg(deg);
    Vec2i { x: -s, y: c }
}

/// The x coordinate of the point of the spawn ring at angle `deg`: the
/// ring radius scaled by the sine.
pub open spec fn ring_x(deg: int) -> int {
    scale_spec(sin_deg_spec(deg), SPAWN_RADIUS as int, DIR_SCALE as int)
}

/// The y coordinate of the point of the spawn ring at angle `deg`.
pub open spec fn ring_y(deg: int) -> int {
    scale_spec(cos_deg_spec(deg), SPAWN_RADIUS as int, DIR_SCALE as int)
}

/// The point of the spawn ring at angle `deg`, as a `Vec2i`.
pub open spec fn ring_point_vec(deg: int) -> Vec2i
    recommends
        0 <= deg < 360,
{
    Vec2i { x: ring_x(deg) as i64, y: ring_y(deg) as i64 }
}

/// Compute the point of the spawn ring at a whole-degree angle. Both
/// coordinates lie within `[-SPAWN_RADIUS, SPAWN_RADIUS]`.
pub fn ring_point(deg: u64) -> (v: Vec2i)
    requires
        deg < 360,
    ensures
        v == ring_point_vec(deg as int),
        -SPAWN_RADIUS <= v.x <= SPAWN_RADIUS,
        -SPAWN_RADIUS <= v.y <= SPAWN_RADIUS,
{
    let s = sin_deg(deg);
    let c = cos_deg(deg);
    proof {
        crate::math::lemma_scale_abs_bound(
            s as int,
            SPAWN_RADIUS as int,
            DIR_SCALE as int,
            DIR_SCALE as int,
        );
        crate::math::lemma_scale_abs_bound(
            c as int,
            SPAWN_RADIUS as int,
            DIR_SCALE as int,
            DIR_SCALE as int,
        );
        assert((DIR_SCALE as int * SPAWN_RADIUS as int) / DIR_SCALE as int == SPAWN_RADIUS as int)
            by (nonlinear_arith);
    }
    let x = scale(s, SPAWN_RADIUS, DIR_SCALE);
    let y = scale(c, SPAWN_RADIUS, DIR_SCALE);
    Vec2i { x, y }
}

} // verus!
