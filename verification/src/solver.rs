//! The reflectivity of a stack of ambient medium, film and substrate at
//! normal incidence, sample by sample and row by row.

use crate::arrays::{array_from_vec, array_get, array_len, Samples};
use crate::attenuation::{attenuation, attenuation_of};
use crate::error::SpectraError;
use crate::fixed::{
    fixed_div, fixed_mul, lemma_trunc_div_at_least, lemma_trunc_div_strictly_within,
    lemma_trunc_div_within, ONE,
};
use vstd::prelude::*;

verus! {

/// The circle constant `2 * pi`, in raw units.
pub const TWO_PI: i64 = 6_283_185_307;

/// The number of angstroms in a nanometre.
pub const ANGSTROMS_PER_NANOMETRE: i64 = 10;

/// The normal-incidence Fresnel amplitude reflection coefficient of the
/// interface from a medium of index `n_from` into one of index `n_to`:
/// `(n_from - n_to) / (n_from + n_to)`.
pub open spec fn interface_coefficient(n_from: int, n_to: int) -> int
    recommends
        n_from > 0,
        n_to > 0,
{
    fixed_div(n_from - n_to, n_from + n_to)
}

/// The phase thickness `2 * pi * index * thickness / wavelength` of a film,
/// with the thickness in angstroms and the wavelength in nanometres. The
/// thickness is first brought to nanometres, then the optical path
/// `index * thickness` is formed, and last the phase.
pub open spec fn phase_thickness(index: int, thickness: int, wavelength: int) -> int
    recommends
        index > 0,
        thickness >= 0,
        wavelength > 0,
{
    let thickness_nm = thickness / (ANGSTROMS_PER_NANOMETRE as int);
    let optical_path = (index * thickness_nm) / (ONE as int);
    (TWO_PI * optical_path) / wavelength
}

/// The amplitude reflectivity of the two interfaces together,
/// `(r01 + r12 * a) / (1 + r01 * r12 * a)`, for an attenuation factor `a`.
pub open spec fn composite_amplitude(r01: int, r12: int, a: int) -> int {
    let returned = fixed_mul(r12, a);
    fixed_div(r01 + returned, ONE + fixed_mul(r01, returned))
}

/// The reflected fraction of the incident power, `|r|^2`.
pub open spec fn intensity(r: int) -> int {
    fixed_mul(r, r)
}

/// The reflectivity of the stack ambient / film / substrate at one
/// wavelength, for one film thickness.
pub open spec fn reflectivity_at(
    ambient: int,
    film: int,
    substrate: int,
    thickness: int,
    wavelength: int,
) -> int {
    intensity(
        composite_amplitude(
            interface_coefficient(ambient, film),
            interface_coefficient(film, substrate),
            attenuation_of(phase_thickness(film, thickness, wavelength)),
        ),
    )
}

/// Why the optics refuse a single sample, if they do: a refractive index that
/// is not positive comes first, then a negative thickness or a wavelength that
/// is not positive.
pub open spec fn sample_error(
    ambient: int,
    film: int,
    substrate: int,
    thickness: int,
    wavelength: int,
) -> Option<SpectraError> {
    if ambient <= 0 || film <= 0 || substrate <= 0 {
        Some(SpectraError::InvalidMaterial)
    } else if thickness < 0 || wavelength <= 0 {
        Some(SpectraError::InvalidRange)
    } else {
        None
    }
}

/// What a single sample comes to: the error that refuses it, or the
/// reflectivity.
pub open spec fn sample_outcome(
    ambient: int,
    film: int,
    substrate: int,
    thickness: int,
    wavelength: int,
) -> Result<int, SpectraError> {
    match sample_error(ambient, film, substrate, thickness, wavelength) {
        Some(e) => Err(e),
        None => Ok(reflectivity_at(ambient, film, substrate, thickness, wavelength)),
    }
}

/// Whether every sample of `s` is positive.
pub open spec fn all_positive(s: Seq<i64>) -> bool {
    forall|i: int| 0 <= i < s.len() ==> #[trigger] s[i] > 0
}

/// Whether every sample of `s` is a fraction: at least zero and at most one.
pub open spec fn all_fractions(s: Seq<i64>) -> bool {
    forall|i: int| 0 <= i < s.len() ==> 0 <= #[trigger] s[i] <= ONE
}

/// Why the optics refuse a whole row, if they do. Misaligned sequences come
/// first, then an index that is not positive (ambient, substrate or any film
/// sample), then a negative thickness or a wavelength that is not positive.
pub open spec fn row_error(
    ambient: int,
    profile: Seq<i64>,
    substrate: int,
    thickness: int,
    wavelengths: Seq<i64>,
) -> Option<SpectraError> {
    if profile.len() != wavelengths.len() {
        Some(SpectraError::DimensionMismatch)
    } else if ambient <= 0 || substrate <= 0 || !all_positive(profile) {
        Some(SpectraError::InvalidMaterial)
    } else if thickness < 0 || !all_positive(wavelengths) {
        Some(SpectraError::InvalidRange)
    } else {
        None
    }
}

/// The reflectivity at every wavelength, aligned with the wavelength grid.
pub open spec fn row_values(
    ambient: int,
    profile: Seq<i64>,
    substrate: int,
    thickness: int,
    wavelengths: Seq<i64>,
) -> Seq<i64> {
    Seq::new(
        wavelengths.len(),
        |i: int|
            reflectivity_at(
                ambient,
                profile[i] as int,
                substrate,
                thickness,
                wavelengths[i] as int,
            ) as i64,
    )
}

/// What a whole row comes to: the error that refuses it, or the
/// reflectivities.
pub open spec fn row_outcome(
    ambient: int,
    profile: Seq<i64>,
    substrate: int,
    thickness: int,
    wavelengths: Seq<i64>,
) -> Result<Seq<i64>, SpectraError> {
    match row_error(ambient, profile, substrate, thickness, wavelengths) {
        Some(e) => Err(e),
        None => Ok(row_values(ambient, profile, substrate, thickness, wavelengths)),
    }
}

/// An interface between two positive indices reflects less than everything.
pub proof fn lemma_interface_coefficient_bounds(n_from: int, n_to: int)
    requires
        n_from > 0,
        n_to > 0,
    ensures
        -ONE < interface_coefficient(n_from, n_to) < ONE,
{
    let num = (n_from - n_to) * ONE;
    let den = n_from + n_to;
    assert(-(ONE * den) < num < ONE * den) by (nonlinear_arith)
        requires
            num == (n_from - n_to) * ONE,
            den == n_from + n_to,
            n_from > 0,
            n_to > 0,
    ;
    lemma_trunc_div_strictly_within(num, den, ONE as int);
}

/// What holds of the composite amplitude of two coefficients that are
/// smaller than one in magnitude, for an attenuation between zero and one:
/// its denominator is positive, and it is at most one in magnitude.
pub proof fn lemma_composite_amplitude_bounds(r01: int, r12: int, a: int)
    requires
        -ONE < r01 < ONE,
        -ONE < r12 < ONE,
        0 <= a <= ONE,
    ensures
        -ONE < fixed_mul(r12, a) < ONE,
        -ONE < fixed_mul(r01, fixed_mul(r12, a)) < ONE,
        ONE + fixed_mul(r01, fixed_mul(r12, a)) >= 1,
        -ONE <= composite_amplitude(r01, r12, a) <= ONE,
{
    let one = ONE as int;
    let bound = if r12 >= 0 { r12 } else { -r12 };
    assert(-(bound * one) <= r12 * a <= bound * one) by (nonlinear_arith)
        requires
            bound == if r12 >= 0 { r12 } else { -r12 },
            0 <= a <= one,
    ;
    lemma_trunc_div_within(r12 * a, one, bound);
    let y = fixed_mul(r12, a);
    let x = r01;
    assert((x + y - one) * one <= x * y) by (nonlinear_arith)
        requires
            x < one,
            y < one,
    ;
    lemma_trunc_div_at_least(x * y, one, x + y - one);
    assert((-(x + y) - one) * one <= x * y) by (nonlinear_arith)
        requires
            -one < x,
            -one < y,
    ;
    lemma_trunc_div_at_least(x * y, one, -(x + y) - one);
    assert(-((one - 1) * one) <= x * y <= (one - 1) * one) by (nonlinear_arith)
        requires
            -one < x < one,
            -one < y < one,
    ;
    lemma_trunc_div_within(x * y, one, one - 1);
    let den = one + fixed_mul(x, y);
    let num = x + y;
    assert(-(one * den) <= num * one <= one * den) by (nonlinear_arith)
        requires
            -den <= num <= den,
            one > 0,
    ;
    lemma_trunc_div_within(num * one, den, one);
}

/// The square of an amplitude of magnitude at most one is a fraction.
pub proof fn lemma_intensity_bounds(r: int)
    requires
        -ONE <= r <= ONE,
    ensures
        0 <= intensity(r) <= ONE,
{
    let one = ONE as int;
    assert(0 <= r * r <= one * one) by (nonlinear_arith)
        requires
            -one <= r <= one,
    ;
    lemma_trunc_div_within(r * r, one, one);
    lemma_trunc_div_at_least(r * r, one, 0);
}

/// The Fresnel coefficient of an interface between two positive indices.
fn coefficient(n_from: i64, n_to: i64) -> (r: i64)
    requires
        n_from > 0,
        n_to > 0,
    ensures
        r == interface_coefficient(n_from as int, n_to as int),
        -ONE < r < ONE,
{
    proof {
        lemma_interface_coefficient_bounds(n_from as int, n_to as int);
    }
    let difference: i128 = n_from as i128 - n_to as i128;
    let sum: i128 = n_from as i128 + n_to as i128;
    assert(i64::MIN * ONE <= difference * ONE <= i64::MAX * ONE) by (nonlinear_arith)
        requires
            i64::MIN <= difference <= i64::MAX,
    ;
    let scaled: i128 = difference * (ONE as i128);
    (scaled / sum) as i64
}

/// The phase thickness of a film, in raw units.
fn phase(index: i64, thickness: i64, wavelength: i64) -> (d: u128)
    requires
        index > 0,
        thickness >= 0,
        wavelength > 0,
    ensures
        d == phase_thickness(index as int, thickness as int, wavelength as int),
{
    let thickness_nm: u128 = (thickness / ANGSTROMS_PER_NANOMETRE) as u128;
    let ghost longest: int = i64::MAX * (i64::MAX / ANGSTROMS_PER_NANOMETRE);
    assert(index * thickness_nm <= longest) by (nonlinear_arith)
        requires
            0 <= index <= i64::MAX,
            0 <= thickness_nm <= i64::MAX / ANGSTROMS_PER_NANOMETRE,
            longest == i64::MAX * (i64::MAX / ANGSTROMS_PER_NANOMETRE),
    ;
    let optical_path: u128 = ((index as u128) * thickness_nm) / (ONE as u128);
    assert(optical_path <= longest / (ONE as int)) by {
        vstd::arithmetic::div_mod::lemma_div_is_ordered(
            index * thickness_nm,
            longest,
            ONE as int,
        );
    }
    assert(TWO_PI * optical_path <= TWO_PI * (longest / (ONE as int))) by (nonlinear_arith)
        requires
            0 <= optical_path <= longest / (ONE as int),
    ;
    ((TWO_PI as u128) * optical_path) / (wavelength as u128)
}

/// The composite amplitude of two coefficients for an attenuation factor.
fn combine(r01: i64, r12: i64, a: i64) -> (r: i64)
    requires
        -ONE < r01 < ONE,
        -ONE < r12 < ONE,
        0 <= a <= ONE,
    ensures
        r == composite_amplitude(r01 as int, r12 as int, a as int),
        -ONE <= r <= ONE,
{
    proof {
        lemma_composite_amplitude_bounds(r01 as int, r12 as int, a as int);
    }
    assert(-(ONE * ONE) <= r12 * a <= ONE * ONE) by (nonlinear_arith)
        requires
            -ONE < r12 < ONE,
            0 <= a <= ONE,
    ;
    let returned: i64 = (r12 * a) / ONE;
    assert(-(ONE * ONE) <= r01 * returned <= ONE * ONE) by (nonlinear_arith)
        requires
            -ONE < r01 < ONE,
            -ONE < returned < ONE,
    ;
    let denominator: i64 = ONE + (r01 * returned) / ONE;
    let numerator: i64 = r01 + returned;
    assert(-(2 * ONE * ONE) <= numerator * ONE <= 2 * ONE * ONE) by (nonlinear_arith)
        requires
            -(2 * ONE) < numerator < 2 * ONE,
    ;
    (numerator * ONE) / denominator
}

/// The reflectivity at one wavelength, for inputs that the optics accept.
fn sample(ambient: i64, film: i64, substrate: i64, thickness: i64, wavelength: i64) -> (r: i64)
    requires
        ambient > 0,
        film > 0,
        substrate > 0,
        thickness >= 0,
        wavelength > 0,
    ensures
        r == reflectivity_at(
            ambient as int,
            film as int,
            substrate as int,
            thickness as int,
            wavelength as int,
        ),
        0 <= r <= ONE,
{
    let r01 = coefficient(ambient, film);
    let r12 = coefficient(film, substrate);
    let a = attenuation(phase(film, thickness, wavelength));
    let r = combine(r01, r12, a);
    proof {
        lemma_intensity_bounds(r as int);
    }
    assert(0 <= r * r <= ONE * ONE) by (nonlinear_arith)
        requires
            -ONE <= r <= ONE,
    ;
    (r * r) / ONE
}

/// The Fresnel coefficient of the interface from a medium of index `n_from`
/// into one of index `n_to`, in raw units. An index that is not positive is
/// an invalid material.
pub fn fresnel_coefficient(n_from: i64, n_to: i64) -> (r: Result<i64, SpectraError>)
    ensures
        match r {
            Ok(c) => n_from > 0 && n_to > 0 && c == interface_coefficient(
                n_from as int,
                n_to as int,
            ) && -ONE < c < ONE,
            Err(e) => e == SpectraError::InvalidMaterial && (n_from <= 0 || n_to <= 0),
        },
{
    if n_from <= 0 || n_to <= 0 {
        Err(SpectraError::InvalidMaterial)
    } else {
        Ok(coefficient(n_from, n_to))
    }
}

/// The phase thickness of a film of the given index and thickness (in
/// angstroms) at a wavelength (in nanometres), in raw units. An index that is
/// not positive is an invalid material; a negative thickness or a wavelength
/// that is not positive is an invalid range.
pub fn film_phase_thickness(index: i64, thickness: i64, wavelength: i64) -> (r: Result<
    u128,
    SpectraError,
>)
    ensures
        match r {
            Ok(d) => index > 0 && thickness >= 0 && wavelength > 0 && d == phase_thickness(
                index as int,
                thickness as int,
                wavelength as int,
            ),
            Err(e) => if index <= 0 {
                e == SpectraError::InvalidMaterial
            } else {
                e == SpectraError::InvalidRange && (thickness < 0 || wavelength <= 0)
            },
        },
{
    if index <= 0 {
        Err(SpectraError::InvalidMaterial)
    } else if thickness < 0 || wavelength <= 0 {
        Err(SpectraError::InvalidRange)
    } else {
        Ok(phase(index, thickness, wavelength))
    }
}

/// The reflectivity of the stack at one wavelength and one film thickness:
/// indices in raw units, the thickness in angstroms, the wavelength in
/// nanometres.
pub fn reflectivity_sample(
    ambient: i64,
    film: i64,
    substrate: i64,
    thickness: i64,
    wavelength: i64,
) -> (r: Result<i64, SpectraError>)
    ensures
        match r {
            Ok(v) => sample_outcome(
                ambient as int,
                film as int,
                substrate as int,
                thickness as int,
                wavelength as int,
            ) == Ok::<int, SpectraError>(v as int) && 0 <= v <= ONE,
            Err(e) => sample_outcome(
                ambient as int,
                film as int,
                substrate as int,
                thickness as int,
                wavelength as int,
            ) == Err::<int, SpectraError>(e),
        },
{
    if ambient <= 0 || film <= 0 || substrate <= 0 {
        Err(SpectraError::InvalidMaterial)
    } else if thickness < 0 || wavelength <= 0 {
        Err(SpectraError::InvalidRange)
    } else {
        Ok(sample(ambient, film, substrate, thickness, wavelength))
    }
}

/// Whether every sample of `s` is positive.
fn is_all_positive(s: &Samples) -> (b: bool)
    ensures
        b == all_positive(s@),
{
    let n = array_len(s);
    let mut i: usize = 0;
    while i < n
        invariant
            n == s@.len(),
            i <= n,
            forall|j: int| 0 <= j < i ==> #[trigger] s@[j] > 0,
        decreases n - i,
    {
        if array_get(s, i) <= 0 {
            return false;
        }
        i = i + 1;
    }
    true
}

/// The reflectivity of the stack ambient / film / substrate at every
/// wavelength of the grid, for one film thickness in angstroms. `profile`
/// holds the film's refractive index at each wavelength of `wavelengths`.
pub fn transfer_matrix_reflectivity(
    ambient: i64,
    profile: &Samples,
    substrate: i64,
    thickness: i64,
    wavelengths: &Samples,
) -> (r: Result<Samples, SpectraError>)
    ensures
        match r {
            Ok(row) => row_outcome(
                ambient as int,
                profile@,
                substrate as int,
                thickness as int,
                wavelengths@,
            ) == Ok::<Seq<i64>, SpectraError>(row@) && row@.len() == wavelengths@.len()
                && all_fractions(row@),
            Err(e) => row_outcome(
                ambient as int,
                profile@,
                substrate as int,
                thickness as int,
                wavelengths@,
            ) == Err::<Seq<i64>, SpectraError>(e),
        },
{
    let n = array_len(wavelengths);
    if array_len(profile) != n {
        return Err(SpectraError::DimensionMismatch);
    }
    if ambient <= 0 || substrate <= 0 || !is_all_positive(profile) {
        return Err(SpectraError::InvalidMaterial);
    }
    if thickness < 0 || !is_all_positive(wavelengths) {
        return Err(SpectraError::InvalidRange);
    }
    let mut row: Vec<i64> = Vec::new();
    let mut i: usize = 0;
    while i < n
        invariant
            n == wavelengths@.len(),
            n == profile@.len(),
            i <= n,
            ambient > 0,
            substrate > 0,
            thickness >= 0,
            all_positive(profile@),
            all_positive(wavelengths@),
            row@.len() == i,
            all_fractions(row@),
            forall|j: int|
                0 <= j < i ==> #[trigger] row@[j] == reflectivity_at(
                    ambient as int,
                    profile@[j] as int,
                    substrate as int,
                    thickness as int,
                    wavelengths@[j] as int,
                ),
        decreases n - i,
    {
        let film = array_get(profile, i);
        let wavelength = array_get(wavelengths, i);
        let value = sample(ambient, film, substrate, thickness, wavelength);
        row.push(value);
        i = i + 1;
    }
    let result = array_from_vec(row);
    assert(result@ =~= row_values(
        ambient as int,
        profile@,
        substrate as int,
        thickness as int,
        wavelengths@,
    ));
    Ok(result)
}

} // verus!
