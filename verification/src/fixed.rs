//! Fixed-point arithmetic for the simulator.
//!
//! Every quantity of the model (voltage, input current, calcium, synaptic
//! strength, decay rate, reward, noise) is an `i64` counted in units of
//! `1 / SCALE`, so that the value `SCALE` stands for `1.0`. Products of two
//! fixed-point values are scaled back down by `SCALE`, rounding toward zero.

use vstd::prelude::*;

verus! {

use vstd::arithmetic::div_mod::lemma_div_is_ordered;
use vstd::arithmetic::div_mod::lemma_div_multiples_vanish;
use vstd::arithmetic::div_mod::lemma_div_nonincreasing;
use vstd::arithmetic::div_mod::lemma_div_of0;
use vstd::arithmetic::div_mod::lemma_div_pos_is_pos;
use vstd::arithmetic::div_mod::lemma_fundamental_div_mod_converse;
use vstd::arithmetic::mul::lemma_mul_inequality;
use vstd::arithmetic::mul::lemma_mul_nonnegative;
use vstd::math::abs;

/// Number of fixed-point units that stand for `1.0`.
pub const SCALE: i64 = 1_000_000;

/// Integer division rounded toward zero (the rounding a machine division
/// performs), defined for positive divisors.
pub open spec fn tdiv(a: int, b: int) -> int
    recommends
        b > 0,
{
    if a >= 0 {
        a / b
    } else {
        -((-a) / b)
    }
}

/// The fixed-point product of `a` and `b`: their integer product scaled back
/// down by `SCALE`, rounded toward zero.
pub open spec fn fmul(a: int, b: int) -> int {
    tdiv(a * b, SCALE as int)
}

/// `x` with one step of fractional decay applied: `x * (1 - rate)` in fixed
/// point.
pub open spec fn decayed(x: int, rate: int) -> int {
    fmul(x, SCALE - rate)
}

/// `v` clamped into `[lo, hi]`, the upper bound applied first.
pub open spec fn clamp(v: int, lo: int, hi: int) -> int {
    let upper = if v >= hi {
        hi
    } else {
        v
    };
    if upper < lo {
        lo
    } else {
        upper
    }
}

/// Whether `v` lies in the `i64` machine range.
pub open spec fn fits(v: int) -> bool {
    i64::MIN <= v <= i64::MAX
}

/// Rounding toward zero never increases a quotient's magnitude beyond the
/// exact quotient's, and a factor between `0` and the divisor never increases
/// the magnitude of the value multiplied.
pub proof fn lemma_tdiv_bound(a: int, f: int, d: int)
    requires
        d > 0,
        0 <= f <= d,
    ensures
        a >= 0 ==> 0 <= tdiv(a * f, d) <= a,
        a < 0 ==> a <= tdiv(a * f, d) <= 0,
        abs(tdiv(a * f, d)) <= abs(a),
{
    if a >= 0 {
        lemma_mul_nonnegative(a, f);
        lemma_div_pos_is_pos(a * f, d);
        lemma_mul_inequality(f, d, a);
        assert(a * f == f * a && a * d == d * a) by (nonlinear_arith);
        lemma_div_is_ordered(a * f, a * d, d);
        lemma_div_multiples_vanish(a, d);
    } else {
        let m = -a;
        assert(a * f == -(m * f)) by (nonlinear_arith)
            requires
                m == -a,
        ;
        lemma_mul_nonnegative(m, f);
        if m * f == 0 {
            lemma_div_of0(d);
        } else {
            lemma_div_pos_is_pos(m * f, d);
            lemma_mul_inequality(f, d, m);
            assert(m * f == f * m && m * d == d * m) by (nonlinear_arith);
            lemma_div_is_ordered(m * f, m * d, d);
            lemma_div_multiples_vanish(m, d);
        }
    }
}

/// With a factor strictly below the divisor, rounding toward zero strictly
/// shrinks the magnitude of any nonzero value.
pub proof fn lemma_tdiv_strict(a: int, f: int, d: int)
    requires
        d > 0,
        0 <= f < d,
        a != 0,
    ensures
        abs(tdiv(a * f, d)) < abs(a),
{
    let m = abs(a) as int;
    assert(m >= 1);
    assert(m * f <= m * (d - 1)) by (nonlinear_arith)
        requires
            m >= 1 && 0 <= f <= d - 1,
    ;
    assert(m * (d - 1) == m * d - m) by (nonlinear_arith);
    assert(m * d - 1 == (m - 1) * d + (d - 1)) by (nonlinear_arith);
    lemma_fundamental_div_mod_converse(m * d - 1, d, m - 1, d - 1);
    lemma_mul_nonnegative(m, f);
    lemma_div_is_ordered(m * f, m * d - 1, d);
    lemma_div_pos_is_pos(m * f, d);
    if a >= 0 {
        assert(a * f == m * f);
    } else {
        assert(a * f == -(m * f)) by (nonlinear_arith)
            requires
                m == -a,
        ;
        if m * f == 0 {
            lemma_div_of0(d);
        }
    }
}

/// One step of fractional decay never grows a value's magnitude, keeps its
/// sign, and strictly shrinks any nonzero value.
pub proof fn lemma_decay_shrinks(x: int, rate: int)
    requires
        0 < rate < SCALE,
    ensures
        x >= 0 ==> 0 <= decayed(x, rate) <= x,
        x < 0 ==> x <= decayed(x, rate) <= 0,
        abs(decayed(x, rate)) <= abs(x),
        x != 0 ==> abs(decayed(x, rate)) < abs(x),
{
    lemma_tdiv_bound(x, SCALE - rate, SCALE as int);
    if x != 0 {
        lemma_tdiv_strict(x, SCALE - rate, SCALE as int);
    }
}

/// `a * b / d` rounded toward zero, computed exactly on 128-bit magnitudes;
/// the result always fits an `i128`.
pub fn mul_div_wide(a: i64, b: i64, d: i128) -> (r: i128)
    requires
        d > 0,
    ensures
        r == tdiv(a * b, d as int),
{
    let aa: u128 = if a >= 0 {
        a as u128
    } else {
        (-(a as i128)) as u128
    };
    let bb: u128 = if b >= 0 {
        b as u128
    } else {
        (-(b as i128)) as u128
    };
    let dd: u128 = d as u128;
    proof {
        assert(aa <= 0x8000000000000000u128 && bb <= 0x8000000000000000u128);
        assert(aa * bb <= 0x8000000000000000u128 * 0x8000000000000000u128) by (nonlinear_arith)
            requires
                aa <= 0x8000000000000000u128 && bb <= 0x8000000000000000u128,
        ;
    }
    let p: u128 = aa * bb;
    let q: u128 = p / dd;
    proof {
        lemma_div_nonincreasing(p as int, dd as int);
        lemma_div_pos_is_pos(p as int, dd as int);
        let ab = a as int * b as int;
        if a >= 0 && b >= 0 {
            assert(ab == aa * bb);
        } else if a < 0 && b < 0 {
            assert(ab == aa * bb) by (nonlinear_arith)
                requires
                    ab == a as int * b as int,
                    aa == -(a as int) && bb == -(b as int),
            ;
        } else {
            assert(ab == -(aa * bb)) by (nonlinear_arith)
                requires
                    ab == a as int * b as int,
                    (aa == a as int && bb == -(b as int)) || (aa == -(a as int) && bb == b as int),
            ;
        }
        if ab < 0 {
            assert(tdiv(ab, d as int) == -(q as int));
        } else {
            if aa * bb == 0 {
                lemma_div_of0(d as int);
            }
            assert(tdiv(ab, d as int) == q as int);
        }
    }
    if (a < 0) != (b < 0) {
        -(q as i128)
    } else {
        q as i128
    }
}

/// `a * b / d` rounded toward zero, for results known to fit an `i64`.
pub fn mul_div(a: i64, b: i64, d: i64) -> (r: i64)
    requires
        d > 0,
        fits(tdiv(a * b, d as int)),
    ensures
        r == tdiv(a * b, d as int),
{
    let wide = mul_div_wide(a, b, d as i128);
    wide as i64
}

/// The fixed-point product of `a` and `b`, for results known to fit an `i64`.
pub fn fmul_exec(a: i64, b: i64) -> (r: i64)
    requires
        fits(fmul(a as int, b as int)),
    ensures
        r == fmul(a as int, b as int),
{
    mul_div(a, b, SCALE)
}

/// `x` with one step of fractional decay applied; always fits, never grows
/// the magnitude.
pub fn decay_value(x: i64, rate: i64) -> (r: i64)
    requires
        0 < rate < SCALE,
    ensures
        r == decayed(x as int, rate as int),
        abs(r as int) <= abs(x as int),
{
    proof {
        lemma_tdiv_bound(x as int, SCALE - rate, SCALE as int);
    }
    mul_div(x, SCALE - rate, SCALE)
}

} // verus!
