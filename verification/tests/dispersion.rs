use thinfilm::arrays::Samples;
use thinfilm::dispersion::{refractive_index_profile, Cauchy, DispersionLaw};
use thinfilm::error::SpectraError;
use thinfilm::grid::uniform_grid;

const ONE: i64 = 1_000_000_000;

fn fused_silica() -> Cauchy {
    Cauchy { a: 1_458_000_000, b: 3_540_000 }
}

fn to_real(raw: i64) -> f64 {
    raw as f64 / ONE as f64
}

#[test]
fn cauchy_index_at_given_wavelengths() {
    let law = fused_silica();
    assert_eq!(law.index(200 * ONE), Some(1_458_000_088));
    assert_eq!(law.index(200 * ONE + ONE / 2), Some(1_458_000_088));
    assert_eq!(law.index(500 * ONE), Some(1_458_000_014));
    assert_eq!(law.index(800 * ONE), Some(1_458_000_005));
}

#[test]
fn cauchy_index_follows_the_real_law() {
    let law = fused_silica();
    let mut wavelength = 200.0_f64;
    while wavelength <= 800.0 {
        let raw = (wavelength * ONE as f64).round() as i64;
        let expected = 1.458 + 0.00354 / (wavelength * wavelength);
        let got = to_real(law.index(raw).unwrap());
        assert!((got - expected).abs() < 2e-9, "at {wavelength}: {got} against {expected}");
        wavelength += 0.5;
    }
}

#[test]
fn cauchy_index_is_even_in_the_wavelength() {
    let law = fused_silica();
    assert_eq!(law.index(-200 * ONE), law.index(200 * ONE));
}

#[test]
fn cauchy_index_with_negative_strength_rounds_toward_zero() {
    let law = Cauchy { a: 1_458_000_000, b: -3_540_000 };
    assert_eq!(law.index(200 * ONE), Some(1_457_999_912));
}

#[test]
fn cauchy_index_at_wavelength_zero_is_not_defined() {
    assert_eq!(fused_silica().index(0), None);
}

#[test]
fn cauchy_index_beyond_the_number_range_is_not_defined() {
    let law = Cauchy { a: 0, b: 1 };
    assert_eq!(law.index(1), Some(1_000_000_000_000_000_000));
    let law = Cauchy { a: 0, b: 10 };
    assert_eq!(law.index(1), None);
    let law = Cauchy { a: i64::MAX, b: 1 };
    assert_eq!(law.index(i64::MAX), Some(i64::MAX));
    assert_eq!(law.index(ONE), None);
    let law = Cauchy { a: i64::MIN, b: -1 };
    assert_eq!(law.index(ONE), None);
}

#[test]
fn profile_has_one_index_per_wavelength() {
    let law = fused_silica();
    for (start, stop, step) in [
        (200 * ONE, 800 * ONE + ONE / 2, ONE / 2),
        (200 * ONE, 200 * ONE, ONE),
        (ONE, 2 * ONE, ONE / 4),
        (400 * ONE, 700 * ONE, 7 * ONE),
    ] {
        let grid = uniform_grid(start, stop, step).unwrap();
        let profile = refractive_index_profile(&law, &grid).unwrap();
        assert_eq!(profile.len(), grid.len());
    }
}

#[test]
fn profile_holds_the_law_at_each_wavelength() {
    let law = fused_silica();
    let grid = Samples::from_vec(vec![800 * ONE, 200 * ONE, 500 * ONE]);
    let profile = refractive_index_profile(&law, &grid).unwrap();
    assert_eq!(profile.to_vec(), vec![1_458_000_005, 1_458_000_088, 1_458_000_014]);
}

#[test]
fn profile_over_a_wavelength_without_index_is_an_invalid_material() {
    let law = fused_silica();
    let grid = Samples::from_vec(vec![200 * ONE, 0, 500 * ONE]);
    assert_eq!(
        refractive_index_profile(&law, &grid).map(|p| p.to_vec()),
        Err(SpectraError::InvalidMaterial)
    );
}

#[test]
fn profile_of_an_empty_grid_is_empty() {
    let grid = Samples::from_vec(Vec::new());
    let profile = refractive_index_profile(&fused_silica(), &grid).unwrap();
    assert_eq!(profile.len(), 0);
}
