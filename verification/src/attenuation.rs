//! The attenuation factor of a film: the exponential of minus twice its phase
//! thickness, in fixed point.

use crate::fixed::ONE;
use vstd::arithmetic::div_mod::{lemma_div_is_ordered, lemma_div_multiples_vanish};
use vstd::arithmetic::power2::{lemma_pow2_pos, pow2};
use vstd::bits::lemma_u64_shr_is_div;
use vstd::prelude::*;

verus! {

/// The natural logarithm of two, in raw units.
pub const LN_2: i64 = 693_147_181;

/// The degree of the polynomial that stands for the exponential on
/// `[0, ln 2)`.
pub const SERIES_TERMS: u64 = 12;

/// After this many halvings nothing is left of a number that is at most one.
pub const VANISHING_HALVINGS: u64 = 30;

/// The tail of the Taylor polynomial of `exp(-r)` in Horner form,
/// `1 - r/k * (1 - r/(k+1) * (... * (1 - r/SERIES_TERMS)))`,
/// each quotient rounded down.
pub open spec fn exp_neg_series(r: int, k: int) -> int
    decreases SERIES_TERMS - k + 1,
{
    if 1 <= k <= SERIES_TERMS {
        ONE - (r * exp_neg_series(r, k + 1)) / (k * ONE)
    } else {
        ONE as int
    }
}

/// The fixed-point value of `exp(-x)` for `x >= 0`: `x` is split into a
/// whole number of `ln 2` and a rest, the polynomial gives the exponential of
/// the rest, and each `ln 2` halves it.
pub open spec fn exp_neg(x: int) -> int
    recommends
        x >= 0,
{
    let halvings = x / (LN_2 as int);
    if halvings >= VANISHING_HALVINGS {
        0
    } else {
        exp_neg_series(x % (LN_2 as int), 1) / (pow2(halvings as nat) as int)
    }
}

/// The attenuation factor `A = exp(-2 * phase)` of a phase thickness.
pub open spec fn attenuation_of(phase: int) -> int
    recommends
        phase >= 0,
{
    exp_neg(2 * phase)
}

/// The polynomial stays between zero and one on `[0, 1]`.
pub proof fn lemma_exp_neg_series_bounds(r: int, k: int)
    requires
        0 <= r <= ONE,
    ensures
        0 <= exp_neg_series(r, k) <= ONE,
    decreases SERIES_TERMS - k + 1,
{
    if 1 <= k <= SERIES_TERMS {
        lemma_exp_neg_series_bounds(r, k + 1);
        lemma_series_step(r, exp_neg_series(r, k + 1), k);
    }
}

/// One Horner step keeps a value between zero and one.
proof fn lemma_series_step(r: int, h: int, k: int)
    requires
        0 <= r <= ONE,
        0 <= h <= ONE,
        k >= 1,
    ensures
        0 <= (r * h) / (k * ONE) <= ONE,
{
    assert(0 <= r * h <= ONE * (k * ONE)) by (nonlinear_arith)
        requires
            0 <= r <= ONE,
            0 <= h <= ONE,
            k >= 1,
    ;
    lemma_div_is_ordered(0, r * h, k * ONE);
    lemma_div_is_ordered(r * h, ONE * (k * ONE), k * ONE);
    assert(ONE * (k * ONE) == (k * ONE) * ONE) by (nonlinear_arith);
    lemma_div_multiples_vanish(ONE as int, k * ONE);
}

/// `exp(-0) = 1`, exactly.
pub proof fn lemma_exp_neg_at_zero()
    ensures
        exp_neg(0) == ONE,
        attenuation_of(0) == ONE,
{
    lemma_exp_neg_series_at_zero(1);
    vstd::arithmetic::power2::lemma2_to64();
    let d = LN_2 as int;
    assert(0int / d == 0 && 0int % d == 0) by (nonlinear_arith)
        requires
            d > 0,
    ;
    assert(pow2(0) == 1);
    assert((ONE as int) / 1 == ONE);
}

/// At zero every tail of the polynomial is one.
proof fn lemma_exp_neg_series_at_zero(k: int)
    ensures
        exp_neg_series(0, k) == ONE,
    decreases SERIES_TERMS - k + 1,
{
    if 1 <= k <= SERIES_TERMS {
        lemma_exp_neg_series_at_zero(k + 1);
        assert((0 * exp_neg_series(0, k + 1)) / (k * ONE) == 0) by (nonlinear_arith)
            requires
                k >= 1,
        ;
    }
}

/// The exponential lies between zero and one.
pub proof fn lemma_exp_neg_bounds(x: int)
    requires
        x >= 0,
    ensures
        0 <= exp_neg(x) <= ONE,
{
    let halvings = x / (LN_2 as int);
    let r = x % (LN_2 as int);
    assert(0 <= halvings) by (nonlinear_arith)
        requires
            x >= 0,
            halvings == x / (LN_2 as int),
    ;
    if halvings < VANISHING_HALVINGS {
        lemma_exp_neg_series_bounds(r, 1);
        lemma_pow2_pos(halvings as nat);
        let p = exp_neg_series(r, 1);
        let d = pow2(halvings as nat) as int;
        assert(0 <= p / d <= p) by (nonlinear_arith)
            requires
                0 <= p,
                d >= 1,
        ;
    }
}

/// From thirty times `ln 2` on, the exponential is zero.
pub proof fn lemma_exp_neg_vanishes(x: int)
    requires
        x >= VANISHING_HALVINGS * LN_2,
    ensures
        exp_neg(x) == 0,
{
    lemma_div_is_ordered(VANISHING_HALVINGS * LN_2, x, LN_2 as int);
    assert(VANISHING_HALVINGS * LN_2 == LN_2 * VANISHING_HALVINGS) by (nonlinear_arith);
    lemma_div_multiples_vanish(VANISHING_HALVINGS as int, LN_2 as int);
}

/// The denominator of the exact tail of the Taylor polynomial from term `k`
/// on: the product of `j * ONE` for `j` from `k` to `SERIES_TERMS`.
pub open spec fn taylor_denominator(k: int) -> int
    decreases SERIES_TERMS - k + 1,
{
    if 1 <= k <= SERIES_TERMS {
        k * ONE * taylor_denominator(k + 1)
    } else {
        1
    }
}

/// The numerator of the exact tail of the Taylor polynomial from term `k` on,
/// over [`taylor_denominator`]: as a fraction, the tail is
/// `1 - x/k * (1 - x/(k+1) * (... * (1 - x/SERIES_TERMS)))` for the real
/// number `x = r / ONE`, with nothing rounded.
pub open spec fn taylor_numerator(r: int, k: int) -> int
    decreases SERIES_TERMS - k + 1,
{
    if 1 <= k <= SERIES_TERMS {
        taylor_denominator(k) - r * taylor_numerator(r, k + 1)
    } else {
        1
    }
}

/// The denominator is positive.
pub proof fn lemma_taylor_denominator_positive(k: int)
    ensures
        taylor_denominator(k) > 0,
    decreases SERIES_TERMS - k + 1,
{
    if 1 <= k <= SERIES_TERMS {
        lemma_taylor_denominator_positive(k + 1);
        let d = taylor_denominator(k + 1);
        assert(k * ONE * d > 0) by (nonlinear_arith)
            requires
                k >= 1,
                d > 0,
        ;
    }
}

/// How far the rounded tail is from the exact one, in raw units: at most two
/// from the second term on.
proof fn lemma_series_is_near_taylor_tail(r: int, k: int)
    requires
        0 <= r <= ONE,
        k >= 2,
    ensures
        -taylor_denominator(k) <= exp_neg_series(r, k) * taylor_denominator(k) - ONE
            * taylor_numerator(r, k) <= 2 * taylor_denominator(k),
    decreases SERIES_TERMS - k + 1,
{
    if k <= SERIES_TERMS {
        lemma_series_is_near_taylor_tail(r, k + 1);
        lemma_taylor_denominator_positive(k + 1);
        let h = exp_neg_series(r, k + 1);
        let n = taylor_numerator(r, k + 1);
        let d = taylor_denominator(k + 1);
        lemma_series_error_step(r, k, h, n, d, 2);
        assert(r * 2 * d <= k * ONE * d) by (nonlinear_arith)
            requires
                0 <= r <= ONE,
                k >= 2,
                d > 0,
        ;
        assert(taylor_denominator(k) == k * ONE * d);
        assert(taylor_numerator(r, k) == k * ONE * d - r * n);
        assert(exp_neg_series(r, k) == ONE - (r * h) / (k * ONE));
    } else {
        assert(exp_neg_series(r, k) == ONE);
        assert(taylor_denominator(k) == 1);
        assert(taylor_numerator(r, k) == 1);
    }
}

/// One Horner step of the error: where the tail before the step is within
/// `e` units of the exact one, the tail after it is within `-(r e / k)` and
/// `1 + r e / k` units.
proof fn lemma_series_error_step(r: int, k: int, h: int, n: int, d: int, e: int)
    requires
        0 <= r <= ONE,
        k >= 1,
        d > 0,
        e >= 0,
        -(e * d) <= h * d - ONE * n <= e * d,
    ensures
        -(r * e * d) <= (ONE - (r * h) / (k * ONE)) * (k * ONE * d) - ONE * (k * ONE * d - r * n)
            <= k * ONE * d + r * e * d,
{
    let divisor = k * ONE;
    let q = (r * h) / divisor;
    vstd::arithmetic::div_mod::lemma_fundamental_div_mod(r * h, divisor);
    vstd::arithmetic::div_mod::lemma_mod_bound(r * h, divisor);
    let rest = (r * h) % divisor;
    assert(r * h == divisor * q + rest);
    assert((ONE - q) * (divisor * d) - ONE * (divisor * d - r * n) == r * (ONE * n) - q * divisor
        * d) by (nonlinear_arith);
    assert(q * divisor * d == r * h * d - rest * d) by (nonlinear_arith)
        requires
            r * h == divisor * q + rest,
    ;
    assert(r * (ONE * n) - r * h * d == -(r * (h * d - ONE * n))) by (nonlinear_arith);
    assert(-(r * e * d) <= r * (h * d - ONE * n) <= r * e * d) by (nonlinear_arith)
        requires
            0 <= r,
            -(e * d) <= h * d - ONE * n <= e * d,
    ;
    assert(0 <= rest * d <= divisor * d) by (nonlinear_arith)
        requires
            0 <= rest < divisor,
            d > 0,
    ;
    assert(k * ONE * d == divisor * d) by (nonlinear_arith)
        requires
            divisor == k * ONE,
    ;
}

/// The rounded polynomial is the Taylor polynomial of the exponential to
/// within a few raw units: on `[0, 1]` it lies at most two units below and at
/// most three above the exact polynomial of degree `SERIES_TERMS`.
pub proof fn lemma_exp_neg_series_is_near_taylor(r: int)
    requires
        0 <= r <= ONE,
    ensures
        -2 * taylor_denominator(1) <= exp_neg_series(r, 1) * taylor_denominator(1) - ONE
            * taylor_numerator(r, 1) <= 3 * taylor_denominator(1),
{
    lemma_series_is_near_taylor_tail(r, 2);
    lemma_taylor_denominator_positive(2);
    let h = exp_neg_series(r, 2);
    let n = taylor_numerator(r, 2);
    let d = taylor_denominator(2);
    lemma_series_error_step(r, 1, h, n, d, 2);
    assert(r * 2 * d <= 2 * (1 * ONE * d)) by (nonlinear_arith)
        requires
            0 <= r <= ONE,
            d > 0,
    ;
    assert(taylor_denominator(1) == 1 * ONE * d);
    assert(taylor_numerator(r, 1) == 1 * ONE * d - r * n);
    assert(exp_neg_series(r, 1) == ONE - (r * h) / (1 * ONE));
}

/// The attenuation factor `exp(-2 * phase)` of a phase thickness, in raw
/// units.
pub fn attenuation(phase: u128) -> (a: i64)
    ensures
        a == attenuation_of(phase as int),
        0 <= a <= ONE,
{
    let one: u64 = ONE as u64;
    let ln_2: u64 = LN_2 as u64;
    if phase >= ((VANISHING_HALVINGS / 2) * ln_2) as u128 {
        proof {
            lemma_exp_neg_vanishes(2 * phase);
        }
        return 0;
    }
    let x: u64 = 2 * (phase as u64);
    let halvings: u64 = x / ln_2;
    let rest: u64 = x % ln_2;
    let mut tail: u64 = one;
    let mut k: u64 = SERIES_TERMS;
    while k >= 1
        invariant
            one == ONE,
            0 <= k <= SERIES_TERMS,
            0 <= rest < LN_2,
            0 <= tail <= ONE,
            tail == exp_neg_series(rest as int, k + 1),
        decreases k,
    {
        proof {
            lemma_series_step(rest as int, tail as int, k as int);
        }
        assert(rest * tail <= ONE * ONE) by (nonlinear_arith)
            requires
                rest <= ONE,
                tail <= ONE,
        ;
        tail = one - (rest * tail) / (k * one);
        k = k - 1;
    }
    proof {
        lemma_u64_shr_is_div(tail, halvings);
        lemma_exp_neg_bounds(x as int);
    }
    (tail >> halvings) as i64
}

} // verus!
