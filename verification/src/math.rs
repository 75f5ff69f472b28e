//! Integer vector and scalar helpers shared by the simulation subsystems:
//! clamping, a truncating multiply-then-divide for fixed-point scaling, and
//! an integer square root for distances.

use vstd::arithmetic::div_mod::{
    lemma_div_is_ordered, lemma_div_multiples_vanish, lemma_div_pos_is_pos,
};
use vstd::prelude::*;

verus! {

/// A 2D point or vector with integer coordinates, in subunits.
#[derive(Clone, Copy, PartialEq, Eq, Structural, Debug)]
pub struct Vec2i {
    pub x: i64,
    pub y: i64,
}

/// `v` clamped into the closed interval `[lo, hi]`.
pub open spec fn clamp_spec(v: int, lo: int, hi: int) -> int {
    if v < lo {
        lo
    } else if v > hi {
        hi
    } else {
        v
    }
}

/// Clamp `v` into `[lo, hi]`.
pub fn clamp(v: i64, lo: i64, hi: i64) -> (r: i64)
    requires
        lo <= hi,
    ensures
        r == clamp_spec(v as int, lo as int, hi as int),
        lo <= r <= hi,
{
    if v < lo {
        lo
    } else if v > hi {
        hi
    } else {
        v
    }
}

/// `v * num / den` with the division truncated toward zero, as Rust's `/`
/// truncates on `i64`.
pub open spec fn scale_spec(v: int, num: int, den: int) -> int
    recommends
        num >= 0,
        den > 0,
{
    if v >= 0 {
        (v * num) / den
    } else {
        -((-v * num) / den)
    }
}

/// Multiply `v` by `num`, divide by `den`, truncating toward zero.
pub fn scale(v: i64, num: i64, den: i64) -> (r: i64)
    requires
        num > 0,
        den > 0,
        -0x4000_0000_0000_0000 <= v * num <= 0x4000_0000_0000_0000,
    ensures
        r == scale_spec(v as int, num as int, den as int),
{
    if v >= 0 {
        (v * num) / den
    } else {
        proof {
            assert(-0x4000_0000_0000_0000 <= v) by (nonlinear_arith)
                requires
                    num >= 1,
                    v < 0,
                    -0x4000_0000_0000_0000 <= v * num,
            ;
            assert(0 <= -(v as int) * num <= 0x4000_0000_0000_0000) by (nonlinear_arith)
                requires
                    num > 0,
                    v < 0,
                    -0x4000_0000_0000_0000 <= v * num,
            ;
            lemma_div_pos_is_pos(-(v as int) * num, den as int);
            lemma_div_is_ordered(0, -(v as int) * num, den as int);
            assert((-(v as int) * num) / (den as int) <= -(v as int) * num) by {
                vstd::arithmetic::div_mod::lemma_div_nonincreasing(-(v as int) * num, den as int);
            }
        }
        -((-v * num) / den)
    }
}

/// The magnitude of the scaled value is bounded by the scaled bound: if
/// `|v| <= b`, then `|scale_spec(v, num, den)| <= b * num / den`.
pub proof fn lemma_scale_abs_bound(v: int, num: int, den: int, b: int)
    requires
        num >= 0,
        den > 0,
        -b <= v <= b,
    ensures
        -((b * num) / den) <= scale_spec(v, num, den) <= (b * num) / den,
{
    if v >= 0 {
        assert(v * num <= b * num) by (nonlinear_arith)
            requires
                num >= 0,
                v <= b,
        ;
        lemma_div_is_ordered(v * num, b * num, den);
        lemma_div_pos_is_pos(v * num, den);
        assert(v * num >= 0) by (nonlinear_arith)
            requires
                num >= 0,
                v >= 0,
        ;
    } else {
        assert(-v * num <= b * num) by (nonlinear_arith)
            requires
                num >= 0,
                -v <= b,
        ;
        lemma_div_is_ordered(-v * num, b * num, den);
        lemma_div_pos_is_pos(-v * num, den);
        assert(-v * num >= 0) by (nonlinear_arith)
            requires
                num >= 0,
                v < 0,
        ;
        lemma_div_pos_is_pos(b * num, den);
    }
}

/// When the numerator does not exceed the denominator, scaling moves a
/// value toward zero: the result has the sign of `v` and magnitude at most
/// `|v|`.
pub proof fn lemma_scale_toward(v: int, num: int, den: int)
    requires
        0 < num <= den,
    ensures
        v >= 0 ==> 0 <= scale_spec(v, num, den) <= v,
        v < 0 ==> v <= scale_spec(v, num, den) <= 0,
{
    if v >= 0 {
        assert(v * num >= 0) by (nonlinear_arith)
            requires
                v >= 0,
                num > 0,
        ;
        lemma_div_pos_is_pos(v * num, den);
        assert(v * num <= v * den) by (nonlinear_arith)
            requires
                v >= 0,
                num <= den,
        ;
        lemma_div_is_ordered(v * num, v * den, den);
        assert(v * den == den * v) by (nonlinear_arith);
        lemma_div_multiples_vanish(v, den);
    } else {
        assert(-v * num >= 0) by (nonlinear_arith)
            requires
                v < 0,
                num > 0,
        ;
        lemma_div_pos_is_pos(-v * num, den);
        assert(-v * num <= -v * den) by (nonlinear_arith)
            requires
                v < 0,
                num <= den,
        ;
        lemma_div_is_ordered(-v * num, -v * den, den);
        assert(-v * den == den * -v) by (nonlinear_arith);
        lemma_div_multiples_vanish(-v, den);
    }
}

/// `r` is the floor of the square root of `n`.
pub open spec fn is_sqrt_floor(n: int, r: int) -> bool {
    0 <= r && r * r <= n && n < (r + 1) * (r + 1)
}

/// The floor of the square root of a nonnegative `n`.
pub open spec fn sqrt_floor(n: int) -> int {
    choose|r: int| is_sqrt_floor(n, r)
}

/// No two distinct values satisfy `is_sqrt_floor` for the same `n`.
pub proof fn lemma_sqrt_floor_unique(n: int, r1: int, r2: int)
    by (nonlinear_arith)
    requires
        is_sqrt_floor(n, r1),
        is_sqrt_floor(n, r2),
    ensures
        r1 == r2,
{
}

/// For every nonnegative `n` some value satisfies `is_sqrt_floor`, so
/// `sqrt_floor(n)` does.
pub proof fn lemma_sqrt_floor_exists(n: int)
    requires
        n >= 0,
    ensures
        is_sqrt_floor(n, sqrt_floor(n)),
    decreases n,
{
    if n == 0 {
        assert(is_sqrt_floor(0, 0)) by (nonlinear_arith);
    } else {
        lemma_sqrt_floor_exists(n - 1);
        let p = sqrt_floor(n - 1);
        if (p + 1) * (p + 1) <= n {
            assert(is_sqrt_floor(n, p + 1)) by (nonlinear_arith)
                requires
                    is_sqrt_floor(n - 1, p),
                    (p + 1) * (p + 1) <= n,
            ;
        } else {
            assert(is_sqrt_floor(n, p));
        }
    }
    let w = choose|r: int| is_sqrt_floor(n, r);
    assert(is_sqrt_floor(n, w));
}

/// Binary search for the floor of the square root of `n`.
pub fn isqrt(n: u64) -> (r: u64)
    requires
        n < 0x4000_0000_0000_0000,
    ensures
        r as int == sqrt_floor(n as int),
        is_sqrt_floor(n as int, r as int),
{
    let mut lo: u64 = 0;
    let mut hi: u64 = 0x8000_0000;
    proof {
        assert((hi as int) * (hi as int) == 0x4000_0000_0000_0000);
    }
    while hi - lo > 1
        invariant
            0 <= lo < hi <= 0x8000_0000,
            (lo as int) * (lo as int) <= n as int,
            (n as int) < (hi as int) * (hi as int),
        decreases hi - lo,
    {
        let mid = lo + (hi - lo) / 2;
        proof {
            assert((mid as int) * (mid as int) <= 0x4000_0000_0000_0000) by (nonlinear_arith)
                requires
                    0 <= mid <= 0x8000_0000,
            ;
        }
        if mid * mid <= n {
            lo = mid;
        } else {
            hi = mid;
        }
    }
    proof {
        lemma_sqrt_floor_exists(n as int);
        lemma_sqrt_floor_unique(n as int, lo as int, sqrt_floor(n as int));
    }
    lo
}

} // verus!
