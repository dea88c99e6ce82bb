//! What rounding loses: how far each step of the optics is from the exact
//! formula that it rounds.

use crate::dispersion::cauchy_index;
use crate::fixed::{
    fixed_mul, lemma_trunc_div_at_least, lemma_trunc_div_at_most, lemma_trunc_div_is_near, ONE,
};
use crate::solver::{
    composite_amplitude, intensity, interface_coefficient, lemma_composite_amplitude_bounds,
    phase_thickness, ANGSTROMS_PER_NANOMETRE, TWO_PI,
};
use vstd::prelude::*;

verus! {

/// The Cauchy index is the law `a + b / wavelength^2` to within one raw unit:
/// times the squared wavelength, it is less than one squared wavelength away
/// from `a * wavelength^2 + b`.
pub proof fn lemma_cauchy_index_is_near_the_law(a: int, b: int, wavelength: int)
    requires
        wavelength != 0,
    ensures
        ({
            let square = wavelength * wavelength;
            let exact = a * square + b * ONE * ONE;
            exact - square < cauchy_index(a, b, wavelength) * square < exact + square
        }),
{
    let square = wavelength * wavelength;
    assert(square > 0) by (nonlinear_arith)
        requires
            square == wavelength * wavelength,
            wavelength != 0,
    ;
    lemma_trunc_div_is_near(b * ONE * ONE, square);
    let term = cauchy_index(a, b, wavelength) - a;
    assert((a + term) * square == a * square + term * square) by (nonlinear_arith);
}

/// The interface coefficient is `(n_from - n_to) / (n_from + n_to)` to within
/// one raw unit, and not larger in magnitude.
pub proof fn lemma_interface_coefficient_is_near_exact(n_from: int, n_to: int)
    requires
        n_from > 0,
        n_to > 0,
    ensures
        ({
            let r = interface_coefficient(n_from, n_to);
            let exact = (n_from - n_to) * ONE;
            &&& exact - (n_from + n_to) < r * (n_from + n_to) < exact + (n_from + n_to)
            &&& n_from >= n_to ==> 0 <= r * (n_from + n_to) <= exact
            &&& n_from <= n_to ==> exact <= r * (n_from + n_to) <= 0
        }),
{
    lemma_trunc_div_is_near((n_from - n_to) * ONE, n_from + n_to);
    let r = interface_coefficient(n_from, n_to);
    let sum = n_from + n_to;
    if n_from >= n_to {
        assert((n_from - n_to) * ONE >= 0) by (nonlinear_arith)
            requires
                n_from >= n_to,
        ;
        assert(0 * sum <= (n_from - n_to) * ONE);
        lemma_trunc_div_at_least((n_from - n_to) * ONE, sum, 0);
        assert(r * sum >= 0) by (nonlinear_arith)
            requires
                r >= 0,
                sum > 0,
        ;
    } else {
        assert((n_from - n_to) * ONE <= 0) by (nonlinear_arith)
            requires
                n_from <= n_to,
        ;
        assert((n_from - n_to) * ONE <= 0 * sum);
        lemma_trunc_div_at_most((n_from - n_to) * ONE, sum, 0);
        assert(r * sum <= 0) by (nonlinear_arith)
            requires
                r <= 0,
                sum > 0,
        ;
    }
}

/// The phase thickness is `2 pi * index * thickness / wavelength` (with the
/// thickness brought from angstroms to nanometres) rounded down, and what the
/// three roundings lose together is less than
/// `1 + 2 pi / wavelength + 2 pi * index / wavelength` raw units.
#[verifier::rlimit(50)]
pub proof fn lemma_phase_thickness_is_near_exact(index: int, thickness: int, wavelength: int)
    requires
        index > 0,
        thickness >= 0,
        wavelength > 0,
    ensures
        ({
            let phase = phase_thickness(index, thickness, wavelength);
            let scale = ANGSTROMS_PER_NANOMETRE * ONE * wavelength;
            let exact = TWO_PI * index * thickness;
            let loss = scale + ANGSTROMS_PER_NANOMETRE * TWO_PI * ONE + ANGSTROMS_PER_NANOMETRE
                * TWO_PI * index;
            phase * scale <= exact < phase * scale + loss
        }),
{
    let ten = ANGSTROMS_PER_NANOMETRE as int;
    let one = ONE as int;
    let two_pi = TWO_PI as int;
    let thickness_nm = thickness / ten;
    let optical_path = (index * thickness_nm) / one;
    let phase = (two_pi * optical_path) / wavelength;
    vstd::arithmetic::div_mod::lemma_fundamental_div_mod(thickness, ten);
    vstd::arithmetic::div_mod::lemma_mod_bound(thickness, ten);
    vstd::arithmetic::div_mod::lemma_fundamental_div_mod(index * thickness_nm, one);
    vstd::arithmetic::div_mod::lemma_mod_bound(index * thickness_nm, one);
    vstd::arithmetic::div_mod::lemma_fundamental_div_mod(two_pi * optical_path, wavelength);
    vstd::arithmetic::div_mod::lemma_mod_bound(two_pi * optical_path, wavelength);
    let e1 = thickness % ten;
    let e2 = (index * thickness_nm) % one;
    let e3 = (two_pi * optical_path) % wavelength;
    let path = index * thickness_nm;
    let turns = two_pi * optical_path;
    assert(two_pi * index * thickness == ten * two_pi * path + two_pi * index * e1)
        by (nonlinear_arith)
        requires
            thickness == ten * thickness_nm + e1,
            path == index * thickness_nm,
    ;
    assert(ten * two_pi * path == ten * one * turns + ten * two_pi * e2) by (nonlinear_arith)
        requires
            path == one * optical_path + e2,
            turns == two_pi * optical_path,
    ;
    assert(ten * one * turns == phase * (ten * one * wavelength) + ten * one * e3)
        by (nonlinear_arith)
        requires
            turns == wavelength * phase + e3,
    ;
    assert(0 <= ten * one * e3 <= ten * one * wavelength - ten * one) by (nonlinear_arith)
        requires
            0 <= e3 <= wavelength - 1,
            ten == 10,
            one == 1_000_000_000,
    ;
    assert(0 <= ten * two_pi * e2 <= ten * two_pi * one - ten * two_pi) by (nonlinear_arith)
        requires
            0 <= e2 <= one - 1,
            ten == 10,
            two_pi == 6_283_185_307,
    ;
    assert(0 <= two_pi * index * e1 <= ten * two_pi * index - two_pi * index)
        by (nonlinear_arith)
        requires
            0 <= e1 <= ten - 1,
            index > 0,
            two_pi == 6_283_185_307,
    ;
}

/// The composite amplitude is `(r01 + r12 a) / (1 + r01 r12 a)` to within
/// five raw units over the denominator: times the exact denominator, it is
/// less than five units away from the exact numerator.
#[verifier::rlimit(50)]
pub proof fn lemma_composite_amplitude_is_near_exact(r01: int, r12: int, a: int)
    requires
        -ONE < r01 < ONE,
        -ONE < r12 < ONE,
        0 <= a <= ONE,
    ensures
        ({
            let r = composite_amplitude(r01, r12, a);
            let numerator = r01 * ONE * ONE + r12 * a * ONE;
            let denominator = ONE * ONE * ONE + r01 * r12 * a;
            &&& denominator > 0
            &&& -5 * (ONE * ONE * ONE) < r * denominator - ONE * numerator < 5 * (ONE * ONE * ONE)
        }),
{
    let one = ONE as int;
    let y = fixed_mul(r12, a);
    let c = fixed_mul(r01, y);
    let r = composite_amplitude(r01, r12, a);
    lemma_composite_amplitude_bounds(r01, r12, a);
    lemma_trunc_div_is_near(r12 * a, one);
    lemma_trunc_div_is_near(r01 * y, one);
    lemma_trunc_div_is_near((r01 + y) * one, one + c);
    let e3 = y * one - r12 * a;
    let e4 = c * one - r01 * y;
    let e5 = r * (one + c) - (r01 + y) * one;
    assert(-one < e3 < one);
    assert(-one < e4 < one);
    assert(-(one + c) < e5 < one + c);
    let cube = one * one * one;
    let denominator = cube + r01 * r12 * a;
    let numerator = r01 * one * one + r12 * a * one;
    let returned = r12 * a;
    let crossed = r01 * y;
    assert(r01 * r12 * a == r01 * returned) by (nonlinear_arith)
        requires
            returned == r12 * a,
    ;
    assert(r01 * returned == crossed * one - r01 * e3) by (nonlinear_arith)
        requires
            returned == y * one - e3,
            crossed == r01 * y,
    ;
    assert(crossed * one == c * (one * one) - e4 * one) by (nonlinear_arith)
        requires
            crossed == c * one - e4,
    ;
    assert(numerator == (r01 + y) * (one * one) - e3 * one) by (nonlinear_arith)
        requires
            numerator == r01 * one * one + r12 * a * one,
            e3 == y * one - r12 * a,
    ;
    let lost = e4 * one + r01 * e3;
    assert(denominator == (one + c) * (one * one) - lost) by (nonlinear_arith)
        requires
            denominator == one * one * one + (c * (one * one) - e4 * one - r01 * e3),
            lost == e4 * one + r01 * e3,
    ;
    assert(r * denominator == (r * (one + c)) * (one * one) - r * lost) by (nonlinear_arith)
        requires
            denominator == (one + c) * (one * one) - lost,
    ;
    assert(r * lost == r * e4 * one + r * r01 * e3) by (nonlinear_arith)
        requires
            lost == e4 * one + r01 * e3,
    ;
    assert((r * (one + c)) * (one * one) == (r01 + y) * cube + one * one * e5)
        by (nonlinear_arith)
        requires
            e5 == r * (one + c) - (r01 + y) * one,
            cube == one * one * one,
    ;
    assert(one * numerator == (r01 + y) * cube - e3 * one * one) by (nonlinear_arith)
        requires
            numerator == (r01 + y) * (one * one) - e3 * one,
            cube == one * one * one,
    ;
    assert(r * denominator - one * numerator == one * one * e5 - r * e4 * one - r * r01 * e3 + e3
        * one * one);
    assert(-(2 * (one * one * one)) < one * one * e5 < 2 * (one * one * one)) by (nonlinear_arith)
        requires
            -(2 * one) < e5 < 2 * one,
            one > 0,
    ;
    assert(-(one * one * one) <= r * e4 * one <= one * one * one) by (nonlinear_arith)
        requires
            -one <= r <= one,
            -one < e4 < one,
            one > 0,
    ;
    assert(-(one * one * one) <= r * r01 * e3 <= one * one * one) by (nonlinear_arith)
        requires
            -one <= r <= one,
            -one < r01 < one,
            -one < e3 < one,
            one > 0,
    ;
    assert(-(one * one * one) < e3 * one * one < one * one * one) by (nonlinear_arith)
        requires
            -one < e3 < one,
            one > 0,
    ;
    assert(one * one * one + r01 * r12 * a > 0) by (nonlinear_arith)
        requires
            -one < r01 < one,
            -one < r12 < one,
            0 <= a <= one,
            one > 0,
    ;
}

/// The intensity is the square of the amplitude, rounded down by less than
/// one raw unit.
pub proof fn lemma_intensity_is_near_exact(r: int)
    ensures
        r * r - ONE < intensity(r) * ONE <= r * r,
{
    assert(r * r >= 0) by (nonlinear_arith);
    lemma_trunc_div_is_near(r * r, ONE as int);
}

} // verus!
