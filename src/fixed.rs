//! Integer rounding and fixed-point scaling.
use vstd::prelude::*;

use crate::configs::SCALE;

verus! {

/// `n / d` rounded to the nearest integer, halves away from zero.
pub open spec fn round_div(n: int, d: int) -> int
    recommends
        d > 0,
{
    if n >= 0 {
        (2 * n + d) / (2 * d)
    } else {
        -((2 * (-n) + d) / (2 * d))
    }
}

/// `x` clamped into the range of `i32`.
pub open spec fn saturate(x: int) -> i32 {
    if x > i32::MAX {
        i32::MAX
    } else if x < i32::MIN {
        i32::MIN
    } else {
        x as i32
    }
}

/// `base * (1 + v / SCALE)`, rounded.
pub open spec fn scaled_product(base: int, v: int) -> int {
    round_div(base * (SCALE + v), SCALE as int)
}

/// `base + v / SCALE`, rounded.
pub open spec fn scaled_sum(base: int, v: int) -> int {
    round_div(base * SCALE + v, SCALE as int)
}

pub proof fn lemma_round_div_bounds(n: int, d: int)
    requires
        d > 0,
    ensures
        n >= 0 ==> 0 <= round_div(n, d) <= n + 1,
        n < 0 ==> n - 1 <= round_div(n, d) <= 0,
{
    if n >= 0 {
        assert(0 <= (2 * n + d) / (2 * d) <= n + 1) by (nonlinear_arith)
            requires
                n >= 0,
                d > 0,
        ;
    } else {
        let m = -n;
        assert(0 <= (2 * m + d) / (2 * d) <= m + 1) by (nonlinear_arith)
            requires
                m > 0,
                d > 0,
        ;
    }
}

/// Exact `round_div` on values whose magnitude stays well inside `i128`.
pub fn round_div_exec(n: i128, d: i128) -> (r: i128)
    requires
        d > 0,
        -0x1000_0000_0000_0000_0000 <= n <= 0x1000_0000_0000_0000_0000,
        d <= 0x1000_0000_0000,
    ensures
        r == round_div(n as int, d as int),
{
    proof {
        lemma_round_div_bounds(n as int, d as int);
    }
    if n >= 0 {
        (2 * n + d) / (2 * d)
    } else {
        let m = -n;
        -((2 * m + d) / (2 * d))
    }
}

/// `base * (1 + v / SCALE)`, rounded and saturated into `i32`.
pub fn scale_product(base: i32, v: i32) -> (r: i32)
    ensures
        r == saturate(scaled_product(base as int, v as int)),
{
    let factor: i128 = SCALE as i128 + v as i128;
    assert(-0x1_0000_0000 <= factor <= 0x1_0000_0000);
    assert(-0x1_0000_0000_0000_0000 <= base * factor <= 0x1_0000_0000_0000_0000) by (nonlinear_arith)
        requires
            -0x1_0000_0000 <= factor <= 0x1_0000_0000,
            -0x8000_0000 <= base <= 0x8000_0000,
    ;
    let n: i128 = base as i128 * factor;
    let q = round_div_exec(n, SCALE as i128);
    to_i32_saturating(q)
}

/// `base + v / SCALE`, rounded and saturated into `i32`.
pub fn scale_sum(base: i32, v: i32) -> (r: i32)
    ensures
        r == saturate(scaled_sum(base as int, v as int)),
{
    assert(-0x1_0000_0000_0000 <= base * 10000 <= 0x1_0000_0000_0000);
    let n: i128 = base as i128 * SCALE as i128 + v as i128;
    let q = round_div_exec(n, SCALE as i128);
    to_i32_saturating(q)
}

/// `x` clamped into the range of `i32`.
pub fn to_i32_saturating(x: i128) -> (r: i32)
    ensures
        r == saturate(x as int),
{
    if x > i32::MAX as i128 {
        i32::MAX
    } else if x < i32::MIN as i128 {
        i32::MIN
    } else {
        x as i32
    }
}

} // verus!
