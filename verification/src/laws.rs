//! What holds of the optics for every stack: reflectivities are fractions,
//! matched media without a film reflect nothing, thick films show their first
//! interface only, and a sweep follows its grids.

use crate::attenuation::{
    attenuation_of, lemma_exp_neg_at_zero, lemma_exp_neg_bounds, lemma_exp_neg_vanishes, LN_2,
    VANISHING_HALVINGS,
};
use crate::dispersion::{cauchy_index, profile_values, Cauchy, DispersionLaw};
use crate::error::SpectraError;
use crate::fixed::{
    fixed_div, fixed_mul, lemma_trunc_div_at_least, lemma_trunc_div_odd, lemma_trunc_div_within,
    ONE,
};
use crate::solver::{
    composite_amplitude, intensity, interface_coefficient, lemma_composite_amplitude_bounds,
    lemma_intensity_bounds, lemma_interface_coefficient_bounds, phase_thickness, reflectivity_at,
    row_error, row_outcome, row_values, sample_error, ANGSTROMS_PER_NANOMETRE, TWO_PI,
};
use crate::sweep::{first_row_error, lemma_no_row_error, sweep_outcome};
use vstd::arithmetic::div_mod::{lemma_div_is_ordered, lemma_div_multiples_vanish};
use vstd::prelude::*;

verus! {

/// The phase thickness of a film is never negative.
pub proof fn lemma_phase_thickness_nonnegative(index: int, thickness: int, wavelength: int)
    requires
        index > 0,
        thickness >= 0,
        wavelength > 0,
    ensures
        phase_thickness(index, thickness, wavelength) >= 0,
{
    lemma_phase_thickness_increases(index, 0, thickness, wavelength);
    lemma_phase_thickness_of_no_film(index, wavelength);
}

/// A film of no thickness has no phase thickness.
pub proof fn lemma_phase_thickness_of_no_film(index: int, wavelength: int)
    requires
        wavelength > 0,
    ensures
        phase_thickness(index, 0, wavelength) == 0,
{
    let thickness_nm = 0int / (ANGSTROMS_PER_NANOMETRE as int);
    assert(thickness_nm == 0);
    assert(index * thickness_nm == 0) by (nonlinear_arith)
        requires
            thickness_nm == 0,
    ;
    let optical_path = (index * thickness_nm) / (ONE as int);
    assert(optical_path == 0);
    assert(TWO_PI * optical_path == 0);
    assert(0int / wavelength == 0) by (nonlinear_arith)
        requires
            wavelength > 0,
    ;
}

/// A thicker film has no smaller phase thickness.
pub proof fn lemma_phase_thickness_increases(
    index: int,
    thinner: int,
    thicker: int,
    wavelength: int,
)
    requires
        index > 0,
        thinner <= thicker,
        wavelength > 0,
    ensures
        phase_thickness(index, thinner, wavelength) <= phase_thickness(index, thicker, wavelength),
{
    let a = thinner / (ANGSTROMS_PER_NANOMETRE as int);
    let b = thicker / (ANGSTROMS_PER_NANOMETRE as int);
    lemma_div_is_ordered(thinner, thicker, ANGSTROMS_PER_NANOMETRE as int);
    assert(index * a <= index * b) by (nonlinear_arith)
        requires
            index > 0,
            a <= b,
    ;
    lemma_div_is_ordered(index * a, index * b, ONE as int);
    let pa = (index * a) / (ONE as int);
    let pb = (index * b) / (ONE as int);
    assert(TWO_PI * pa <= TWO_PI * pb);
    lemma_div_is_ordered(TWO_PI * pa, TWO_PI * pb, wavelength);
}

/// Reflectivity is a fraction: for every stack that the optics accept, the
/// reflected share of the incident power lies between zero and one.
pub proof fn lemma_reflectivity_is_a_fraction(
    ambient: int,
    film: int,
    substrate: int,
    thickness: int,
    wavelength: int,
)
    requires
        sample_error(ambient, film, substrate, thickness, wavelength) is None,
    ensures
        0 <= reflectivity_at(ambient, film, substrate, thickness, wavelength) <= ONE,
{
    let r01 = interface_coefficient(ambient, film);
    let r12 = interface_coefficient(film, substrate);
    let phase = phase_thickness(film, thickness, wavelength);
    lemma_interface_coefficient_bounds(ambient, film);
    lemma_interface_coefficient_bounds(film, substrate);
    lemma_phase_thickness_nonnegative(film, thickness, wavelength);
    lemma_exp_neg_bounds(2 * phase);
    lemma_composite_amplitude_bounds(r01, r12, attenuation_of(phase));
    lemma_intensity_bounds(composite_amplitude(r01, r12, attenuation_of(phase)));
}

/// Every entry of a row that the optics accept is a fraction.
pub proof fn lemma_row_entries_are_fractions(
    ambient: int,
    profile: Seq<i64>,
    substrate: int,
    thickness: int,
    wavelengths: Seq<i64>,
    i: int,
)
    requires
        row_error(ambient, profile, substrate, thickness, wavelengths) is None,
        0 <= i < wavelengths.len(),
    ensures
        0 <= row_values(ambient, profile, substrate, thickness, wavelengths)[i] <= ONE,
        row_values(ambient, profile, substrate, thickness, wavelengths)[i] == reflectivity_at(
            ambient,
            profile[i] as int,
            substrate,
            thickness,
            wavelengths[i] as int,
        ),
{
    assert(profile[i] > 0);
    assert(wavelengths[i] > 0);
    lemma_reflectivity_is_a_fraction(
        ambient,
        profile[i] as int,
        substrate,
        thickness,
        wavelengths[i] as int,
    );
}

/// Seen from the two sides, an interface has opposite coefficients: where the
/// ambient medium and the substrate have the same index, the coefficient of
/// the film-to-substrate interface is the negative of the ambient-to-film one.
pub proof fn lemma_matched_media_coefficients_are_opposite(ambient: int, film: int)
    requires
        ambient > 0,
        film > 0,
    ensures
        interface_coefficient(film, ambient) == -interface_coefficient(ambient, film),
{
    lemma_trunc_div_odd((ambient - film) * ONE, ambient + film);
    assert((film - ambient) * ONE == -((ambient - film) * ONE)) by (nonlinear_arith);
}

/// A film of no thickness attenuates nothing.
pub proof fn lemma_no_film_attenuates_nothing(index: int, wavelength: int)
    requires
        wavelength > 0,
    ensures
        attenuation_of(phase_thickness(index, 0, wavelength)) == ONE,
{
    lemma_phase_thickness_of_no_film(index, wavelength);
    lemma_exp_neg_at_zero();
}

/// Between two media of the same index a film of no thickness reflects
/// nothing, at every wavelength and whatever the film's index is.
pub proof fn lemma_matched_media_without_film_reflect_nothing(
    ambient: int,
    film: int,
    wavelength: int,
)
    requires
        ambient > 0,
        film > 0,
        wavelength > 0,
    ensures
        reflectivity_at(ambient, film, ambient, 0, wavelength) == 0,
{
    let one = ONE as int;
    let r01 = interface_coefficient(ambient, film);
    let r12 = interface_coefficient(film, ambient);
    lemma_matched_media_coefficients_are_opposite(ambient, film);
    lemma_no_film_attenuates_nothing(film, wavelength);
    lemma_interface_coefficient_bounds(ambient, film);
    lemma_interface_coefficient_bounds(film, ambient);
    lemma_composite_amplitude_bounds(r01, r12, one);
    assert(fixed_mul(r12, one) == r12) by {
        lemma_unit_product(r12);
    }
    let den = one + fixed_mul(r01, r12);
    assert(fixed_div(0, den) == 0) by {
        assert(0 * one == 0);
        assert(0int / den == 0) by (nonlinear_arith)
            requires
                den >= 1,
        ;
    }
    assert(fixed_mul(0, 0) == 0) by {
        assert(0int * 0int == 0);
        assert(0int / one == 0);
    }
}

/// With the ambient medium and the substrate of the same index and a film of
/// no thickness, the reflectivity is that of the ambient-to-film interface
/// alone wherever that interface alone reflects nothing that can be told from
/// zero. (Where it reflects more, the stack still reflects nothing.)
pub proof fn lemma_matched_media_single_interface(ambient: int, film: int, wavelength: int)
    requires
        ambient > 0,
        film > 0,
        wavelength > 0,
        intensity(interface_coefficient(ambient, film)) == 0,
    ensures
        reflectivity_at(ambient, film, ambient, 0, wavelength) == intensity(
            interface_coefficient(ambient, film),
        ),
{
    lemma_matched_media_without_film_reflect_nothing(ambient, film, wavelength);
}

/// Multiplying by one changes nothing.
pub proof fn lemma_unit_product(a: int)
    ensures
        fixed_mul(a, ONE as int) == a,
        fixed_div(a, ONE as int) == a,
{
    let one = ONE as int;
    assert(a * one == one * a) by (nonlinear_arith);
    assert((-(a * one)) == one * (-a)) by (nonlinear_arith);
    lemma_div_multiples_vanish(a, one);
    lemma_div_multiples_vanish(-a, one);
}

/// A thick film hides the substrate: from [`vanishing_thickness`] on, the
/// reflectivity is that of the ambient-to-film interface alone.
pub proof fn lemma_thick_film_limit(
    ambient: int,
    film: int,
    substrate: int,
    thickness: int,
    wavelength: int,
)
    requires
        sample_error(ambient, film, substrate, thickness, wavelength) is None,
        thickness >= vanishing_thickness(film, wavelength),
    ensures
        reflectivity_at(ambient, film, substrate, thickness, wavelength) == intensity(
            interface_coefficient(ambient, film),
        ),
{
    lemma_thick_films_attenuate_everything(film, thickness, wavelength);
    lemma_thick_film_shows_first_interface_only(
        ambient,
        film,
        substrate,
        thickness,
        thickness,
        wavelength,
    );
}

/// Once a film is thick enough for its attenuation to vanish, the
/// reflectivity is that of the ambient-to-film interface alone, and it stays
/// so for every thicker film.
pub proof fn lemma_thick_film_shows_first_interface_only(
    ambient: int,
    film: int,
    substrate: int,
    thickness: int,
    thicker: int,
    wavelength: int,
)
    requires
        sample_error(ambient, film, substrate, thickness, wavelength) is None,
        2 * phase_thickness(film, thickness, wavelength) >= VANISHING_HALVINGS * LN_2,
        thickness <= thicker,
    ensures
        attenuation_of(phase_thickness(film, thicker, wavelength)) == 0,
        reflectivity_at(ambient, film, substrate, thicker, wavelength) == intensity(
            interface_coefficient(ambient, film),
        ),
{
    let one = ONE as int;
    let r01 = interface_coefficient(ambient, film);
    let r12 = interface_coefficient(film, substrate);
    lemma_phase_thickness_increases(film, thickness, thicker, wavelength);
    lemma_exp_neg_vanishes(2 * phase_thickness(film, thicker, wavelength));
    assert(fixed_mul(r12, 0) == 0) by {
        assert(r12 * 0 == 0);
        assert(0int / one == 0);
    }
    assert(fixed_mul(r01, 0) == 0) by {
        assert(r01 * 0 == 0);
        assert(0int / one == 0);
    }
    lemma_unit_product(r01);
}

/// A thickness from which on a film of the given index attenuates
/// everything at the given wavelength.
pub open spec fn vanishing_thickness(index: int, wavelength: int) -> int
    recommends
        index > 0,
        wavelength > 0,
{
    let phase = (VANISHING_HALVINGS / 2) * LN_2;
    let optical_path = (phase * wavelength) / (TWO_PI as int) + 1;
    let thickness_nm = (optical_path * ONE) / index + 1;
    ANGSTROMS_PER_NANOMETRE * thickness_nm
}

/// A quotient is at least `m` where the dividend is at least `m` times the
/// divisor.
proof fn lemma_quotient_at_least(a: int, b: int, m: int)
    requires
        b > 0,
        a >= m * b,
    ensures
        a / b >= m,
{
    lemma_div_is_ordered(m * b, a, b);
    lemma_div_multiples_vanish(m, b);
    assert(m * b == b * m) by (nonlinear_arith);
}

/// A dividend is less than the divisor times the quotient and one more.
proof fn lemma_dividend_below_next_multiple(a: int, b: int)
    requires
        b > 0,
    ensures
        a < (a / b + 1) * b,
{
    vstd::arithmetic::div_mod::lemma_fundamental_div_mod(a, b);
    vstd::arithmetic::div_mod::lemma_mod_bound(a, b);
    assert((a / b + 1) * b == b * (a / b) + b) by (nonlinear_arith);
}

/// For every film and wavelength there is a thickness from which on the film
/// attenuates everything: the attenuation is zero at every thickness from
/// [`vanishing_thickness`] on.
pub proof fn lemma_thick_films_attenuate_everything(index: int, thickness: int, wavelength: int)
    requires
        index > 0,
        wavelength > 0,
        thickness >= vanishing_thickness(index, wavelength),
    ensures
        2 * phase_thickness(index, thickness, wavelength) >= VANISHING_HALVINGS * LN_2,
        attenuation_of(phase_thickness(index, thickness, wavelength)) == 0,
{
    let phase = (VANISHING_HALVINGS / 2) * LN_2;
    let optical_path = (phase * wavelength) / (TWO_PI as int) + 1;
    let thickness_nm = (optical_path * ONE) / index + 1;
    let tenth = thickness / (ANGSTROMS_PER_NANOMETRE as int);
    assert(thickness >= thickness_nm * ANGSTROMS_PER_NANOMETRE);
    lemma_quotient_at_least(thickness, ANGSTROMS_PER_NANOMETRE as int, thickness_nm);
    lemma_dividend_below_next_multiple(optical_path * ONE, index);
    assert(index * tenth >= thickness_nm * index) by (nonlinear_arith)
        requires
            tenth >= thickness_nm,
            index > 0,
    ;
    lemma_quotient_at_least(index * tenth, ONE as int, optical_path);
    let path = (index * tenth) / (ONE as int);
    lemma_dividend_below_next_multiple(phase * wavelength, TWO_PI as int);
    assert(TWO_PI * path >= optical_path * TWO_PI) by (nonlinear_arith)
        requires
            path >= optical_path,
    ;
    lemma_quotient_at_least(TWO_PI * path, wavelength, phase);
    lemma_exp_neg_vanishes(2 * phase_thickness(index, thickness, wavelength));
}

/// The solver is a function of its inputs: two results for the same inputs
/// are the same, entry for entry.
pub proof fn lemma_rows_are_determined(
    ambient: int,
    profile: Seq<i64>,
    substrate: int,
    thickness: int,
    wavelengths: Seq<i64>,
    first: Result<Seq<i64>, SpectraError>,
    second: Result<Seq<i64>, SpectraError>,
)
    requires
        first == row_outcome(ambient, profile, substrate, thickness, wavelengths),
        second == row_outcome(ambient, profile, substrate, thickness, wavelengths),
    ensures
        first == second,
{
}

/// A finished sweep follows its grids: it has one row per thickness, row `i`
/// is what the solver gives for thickness `i`, every row is as long as the
/// wavelength grid, and every entry is a fraction.
pub proof fn lemma_sweep_rows_follow_the_grids(
    ambient: int,
    profile: Seq<i64>,
    substrate: int,
    thicknesses: Seq<i64>,
    wavelengths: Seq<i64>,
    rows: Seq<Seq<i64>>,
    i: int,
)
    requires
        sweep_outcome(ambient, profile, substrate, thicknesses, wavelengths) == Ok::<
            Seq<Seq<i64>>,
            SpectraError,
        >(rows),
        0 <= i < thicknesses.len(),
    ensures
        rows.len() == thicknesses.len(),
        rows[i].len() == wavelengths.len(),
        row_outcome(ambient, profile, substrate, thicknesses[i] as int, wavelengths) == Ok::<
            Seq<i64>,
            SpectraError,
        >(rows[i]),
        forall|j: int| 0 <= j < wavelengths.len() ==> 0 <= #[trigger] rows[i][j] <= ONE,
{
    lemma_no_row_error(ambient, profile, substrate, thicknesses, wavelengths, 0, i);
    assert forall|j: int| 0 <= j < wavelengths.len() implies 0 <= #[trigger] rows[i][j]
        <= ONE by {
        lemma_row_entries_are_fractions(
            ambient,
            profile,
            substrate,
            thicknesses[i] as int,
            wavelengths,
            j,
        );
    }
}

/// A sweep fails fast: where it fails, it fails with the error of the first
/// thickness whose row the solver refuses, and every thickness before that
/// one has a row.
pub proof fn lemma_sweep_fails_with_the_first_refusal(
    ambient: int,
    profile: Seq<i64>,
    substrate: int,
    thicknesses: Seq<i64>,
    wavelengths: Seq<i64>,
    e: SpectraError,
) -> (i: int)
    requires
        sweep_outcome(ambient, profile, substrate, thicknesses, wavelengths) == Err::<
            Seq<Seq<i64>>,
            SpectraError,
        >(e),
    ensures
        0 <= i < thicknesses.len(),
        row_outcome(ambient, profile, substrate, thicknesses[i] as int, wavelengths) == Err::<
            Seq<i64>,
            SpectraError,
        >(e),
        forall|j: int|
            0 <= j < i ==> (#[trigger] row_error(
                ambient,
                profile,
                substrate,
                thicknesses[j] as int,
                wavelengths,
            )) is None,
{
    lemma_first_refusal(ambient, profile, substrate, thicknesses, wavelengths, 0, e)
}

/// The position of the first refused row from `from` on.
proof fn lemma_first_refusal(
    ambient: int,
    profile: Seq<i64>,
    substrate: int,
    thicknesses: Seq<i64>,
    wavelengths: Seq<i64>,
    from: int,
    e: SpectraError,
) -> (i: int)
    requires
        0 <= from,
        first_row_error(ambient, profile, substrate, thicknesses, wavelengths, from) == Some(e),
    ensures
        from <= i < thicknesses.len(),
        row_error(ambient, profile, substrate, thicknesses[i] as int, wavelengths) == Some(e),
        forall|j: int|
            from <= j < i ==> (#[trigger] row_error(
                ambient,
                profile,
                substrate,
                thicknesses[j] as int,
                wavelengths,
            )) is None,
    decreases thicknesses.len() - from,
{
    if row_error(ambient, profile, substrate, thicknesses[from] as int, wavelengths) is Some {
        from
    } else {
        lemma_first_refusal(ambient, profile, substrate, thicknesses, wavelengths, from + 1, e)
    }
}

/// A dispersion law gives one index per wavelength: the profile over a grid
/// is as long as the grid.
pub proof fn lemma_profile_is_aligned<L: DispersionLaw>(law: &L, wavelengths: Seq<i64>)
    ensures
        profile_values(law, wavelengths).len() == wavelengths.len(),
{
}

/// The film of the Cauchy law `1.458 + 0.00354 / wavelength^2`.
pub open spec fn fused_silica() -> Cauchy {
    Cauchy { a: 1_458_000_000, b: 3_540_000 }
}

/// A fused-silica film in air on silicon: at every wavelength from 200 nm to
/// 800 nm the Cauchy law gives an index, and with it the reflectivity is a
/// fraction for every thickness from 0 to 6000 angstroms.
pub proof fn lemma_silica_on_silicon_reflectivity_is_a_fraction(wavelength: i64, thickness: i64)
    requires
        200 * ONE <= wavelength <= 800 * ONE,
        0 <= thickness <= 6000 * ONE,
    ensures
        fused_silica().index_at(wavelength) is Some,
        1_458_000_000 <= fused_silica().index_at(wavelength)->0 <= 1_458_000_089,
        0 <= reflectivity_at(
            ONE as int,
            fused_silica().index_at(wavelength)->0 as int,
            3_500_000_000,
            thickness as int,
            wavelength as int,
        ) <= ONE,
{
    let w = wavelength as int;
    let strength = 3_540_000int * ONE * ONE;
    assert(strength == 3_540_000_000_000_000_000_000_000int) by (nonlinear_arith)
        requires
            strength == 3_540_000int * 1_000_000_000int * 1_000_000_000int,
    ;
    assert(w * w >= 40_000_000_000_000_000_000_000int) by (nonlinear_arith)
        requires
            w >= 200_000_000_000int,
    ;
    assert(-(89 * (w * w)) <= strength <= 89 * (w * w));
    lemma_trunc_div_within(strength, w * w, 89);
    assert(0 * (w * w) <= strength);
    lemma_trunc_div_at_least(strength, w * w, 0);
    let n = cauchy_index(1_458_000_000, 3_540_000, w);
    assert(1_458_000_000 <= n <= 1_458_000_089);
    lemma_reflectivity_is_a_fraction(ONE as int, n, 3_500_000_000, thickness as int, w);
}

} // verus!
