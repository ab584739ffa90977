//! Exact fixed-point arithmetic for the geometric core.
//!
//! Pixel positions and fractional axial coordinates are carried as `i64`
//! values scaled by `SCALE`; every operation on them is exact integer
//! arithmetic, so each result is fully determined by its inputs.

use vstd::prelude::*;
use vstd::arithmetic::div_mod::{
    lemma_div_multiples_vanish, lemma_div_multiples_vanish_fancy, lemma_fundamental_div_mod,
    lemma_hoist_over_denominator,
};
use vstd::math::abs;

verus! {

/// Number of fixed-point units per whole unit (pixel or axial step).
pub const SCALE: i64 = 65536;

/// Half of `SCALE`: the midpoint used when rounding to a whole unit.
pub const HALF: i64 = 32768;

/// Quotient of `a` by the positive divisor `d`, rounded toward zero.
pub open spec fn div_trunc(a: int, d: int) -> int
    recommends
        d > 0,
{
    if a >= 0 {
        a / d
    } else {
        -((-a) / d)
    }
}

/// Divides `a` by the positive divisor `d`, rounding toward zero.
pub fn div_trunc_i64(a: i64, d: i64) -> (q: i64)
    requires
        d > 0,
        a > i64::MIN,
    ensures
        q == div_trunc(a as int, d as int),
{
    if a >= 0 {
        a / d
    } else {
        let n: i64 = -a;
        -(n / d)
    }
}

/// The whole unit nearest to the fixed-point value `x`, halves rounding
/// away from zero.
pub open spec fn round_fx_spec(x: int) -> int {
    if x >= 0 {
        (x + HALF) / (SCALE as int)
    } else {
        -((-x + HALF) / (SCALE as int))
    }
}

/// Rounds the fixed-point value `x` to the nearest whole unit, halves
/// rounding away from zero.
pub fn round_fx(x: i64) -> (n: i64)
    requires
        -(i64::MAX - HALF) <= x <= i64::MAX - HALF,
    ensures
        n == round_fx_spec(x as int),
{
    if x >= 0 {
        (x + HALF) / SCALE
    } else {
        let m: i64 = -x;
        -((m + HALF) / SCALE)
    }
}

/// Absolute value of `x`.
pub fn abs_i64(x: i64) -> (r: i64)
    requires
        x > i64::MIN,
    ensures
        r == abs(x as int),
{
    if x >= 0 {
        x
    } else {
        -x
    }
}

/// The rounded value, scaled back up, stays within half a unit of the
/// original: `abs(round_fx_spec(x)) * SCALE <= abs(x) + HALF`.
pub proof fn lemma_round_fx_bound(x: int)
    ensures
        abs(round_fx_spec(x)) * SCALE <= abs(x) + HALF,
{
    if x >= 0 {
        let r = (x + HALF) / (SCALE as int);
        lemma_fundamental_div_mod(x + HALF, SCALE as int);
        assert(r >= 0) by (nonlinear_arith)
            requires
                x + HALF == SCALE * r + ((x + HALF) % (SCALE as int)) && 0 <= (x + HALF) % (
                SCALE as int) < SCALE && x >= 0,
        ;
        assert(r * SCALE <= x + HALF) by (nonlinear_arith)
            requires
                x + HALF == SCALE * r + ((x + HALF) % (SCALE as int)) && 0 <= (x + HALF) % (
                SCALE as int),
        ;
    } else {
        let r = (-x + HALF) / (SCALE as int);
        lemma_fundamental_div_mod(-x + HALF, SCALE as int);
        assert(r >= 0) by (nonlinear_arith)
            requires
                -x + HALF == SCALE * r + ((-x + HALF) % (SCALE as int)) && 0 <= (-x + HALF) % (
                SCALE as int) < SCALE && x < 0,
        ;
        assert(r * SCALE <= -x + HALF) by (nonlinear_arith)
            requires
                -x + HALF == SCALE * r + ((-x + HALF) % (SCALE as int)) && 0 <= (-x + HALF) % (
                SCALE as int),
        ;
    }
}

/// The magnitude of a truncating quotient never exceeds the magnitude of
/// the dividend: `abs(div_trunc(a, d)) * d <= abs(a)`.
pub proof fn lemma_div_trunc_bound(a: int, d: int)
    requires
        d > 0,
    ensures
        abs(div_trunc(a, d)) * d <= abs(a),
{
    if a >= 0 {
        lemma_fundamental_div_mod(a, d);
        assert(abs(a / d) * d <= abs(a)) by (nonlinear_arith)
            requires
                d > 0 && a >= 0 && a == d * (a / d) + (a % d) && 0 <= a % d < d,
        ;
    } else {
        lemma_fundamental_div_mod(-a, d);
        assert(abs(-((-a) / d)) * d <= abs(a)) by (nonlinear_arith)
            requires
                d > 0 && a < 0 && -a == d * ((-a) / d) + ((-a) % d) && 0 <= (-a) % d < d,
        ;
    }
}

/// Rounding a value that is exactly a whole number of units changes nothing.
pub proof fn lemma_round_fx_exact(n: int)
    ensures
        round_fx_spec(n * SCALE) == n,
{
    if n >= 0 {
        assert(n * SCALE + HALF == SCALE * n + HALF) by (nonlinear_arith);
        lemma_div_multiples_vanish_fancy(n, HALF as int, SCALE as int);
    } else {
        assert(-(n * SCALE) + HALF == SCALE * (-n) + HALF) by (nonlinear_arith);
        lemma_div_multiples_vanish_fancy(-n, HALF as int, SCALE as int);
        assert(n * SCALE < 0) by (nonlinear_arith)
            requires
                n < 0,
        ;
    }
}

/// A fixed-point value strictly within half a unit of `n * SCALE` rounds
/// to `n`.
pub proof fn lemma_round_fx_near(n: int, e: int)
    requires
        -HALF < e < HALF,
    ensures
        round_fx_spec(n * SCALE + e) == n,
{
    let x = n * SCALE + e;
    if x >= 0 {
        assert(n * SCALE + e + HALF == SCALE * n + (e + HALF)) by (nonlinear_arith);
        lemma_div_multiples_vanish_fancy(n, e + HALF, SCALE as int);
    } else {
        assert(-(n * SCALE + e) + HALF == SCALE * (-n) + (HALF - e)) by (nonlinear_arith);
        lemma_div_multiples_vanish_fancy(-n, HALF - e, SCALE as int);
    }
}

/// Truncating division of an exact multiple of the divisor recovers the
/// multiplier.
pub proof fn lemma_div_trunc_exact(k: int, d: int)
    requires
        d > 0,
    ensures
        div_trunc(d * k, d) == k,
{
    if d * k >= 0 {
        if k >= 0 {
            lemma_div_multiples_vanish(k, d);
        } else {
            assert(d * k < 0) by (nonlinear_arith)
                requires
                    d > 0 && k < 0,
            ;
        }
    } else {
        assert(-(d * k) == d * (-k)) by (nonlinear_arith);
        lemma_div_multiples_vanish(-k, d);
        assert(d * k < 0 ==> k < 0) by (nonlinear_arith)
            requires
                d > 0,
        ;
    }
}

/// Truncating division of `d * k + m` by `d` lands within `abs(m) / d + 1`
/// of `k`: the error stays proportional to the perturbation `m`.
pub proof fn lemma_div_trunc_near(k: int, m: int, d: int)
    requires
        d > 0,
    ensures
        abs(div_trunc(d * k + m, d) - k) * d <= abs(m) + d,
{
    let a = d * k + m;
    lemma_hoist_over_denominator(m, k, d as nat);
    assert(m / d + k == (m + k * d) / d);
    assert(d * k + m == m + k * d) by (nonlinear_arith);
    if a >= 0 {
        // div_trunc(a, d) == a / d == k + m / d
        assert(div_trunc(a, d) == k + m / d);
        lemma_fundamental_div_mod(m, d as int);
        assert(abs(m / d) * d <= abs(m) + d) by (nonlinear_arith)
            requires
                d > 0 && m == d * (m / d) + (m % d) && 0 <= m % d < d,
        ;
        assert(abs((k + m / d) - k) == abs(m / d));
    } else {
        // div_trunc(a, d) == -((-a) / d) == k - ((-m) / d)
        lemma_hoist_over_denominator(-m, -k, d as nat);
        assert((-m) / d + (-k) == (-m + (-k) * d) / d);
        assert(-(d * k + m) == -m + (-k) * d) by (nonlinear_arith);
        assert(div_trunc(a, d) == -((-m) / d + (-k)));
        lemma_fundamental_div_mod(-m, d as int);
        assert(abs((-m) / d) * d <= abs(m) + d) by (nonlinear_arith)
            requires
                d > 0 && -m == d * ((-m) / d) + ((-m) % d) && 0 <= (-m) % d < d,
        ;
        assert(abs((k - ((-m) / d)) - k) == abs((-m) / d));
    }
}

} // verus!
