use thinfilm::dispersion::{Cauchy, DispersionLaw};
use thinfilm::error::SpectraError;
use thinfilm::series::select_series;
use thinfilm::solver::reflectivity_sample;
use thinfilm::spectra::{compute_spectra, StackConfig};

const ONE: i64 = 1_000_000_000;

fn silica_on_silicon() -> StackConfig {
    StackConfig {
        wavelength_start: 200 * ONE,
        wavelength_stop: 800 * ONE + ONE / 2,
        wavelength_step: ONE / 2,
        thickness_start: 0,
        thickness_stop: 6_001 * ONE,
        thickness_step: ONE,
        ambient: ONE,
        substrate: 3_500_000_000,
    }
}

fn fused_silica() -> Cauchy {
    Cauchy { a: 1_458_000_000, b: 3_540_000 }
}

#[test]
fn spectra_of_silica_on_silicon() {
    let spectra = compute_spectra(&silica_on_silicon(), &fused_silica()).ok().unwrap();
    assert_eq!(spectra.wavelengths.len(), 1201);
    assert_eq!(spectra.thicknesses.len(), 6001);
    assert_eq!(spectra.reflectivity.nrows(), 6001);
    assert_eq!(spectra.reflectivity.ncols(), 1201);
    for i in 0..6001 {
        let row = spectra.reflectivity.row(i).unwrap();
        assert_eq!(row.len(), 1201);
        for value in row {
            assert!(0 <= value && value <= ONE);
        }
    }
    let bare = (2.5_f64 / 4.5).powi(2);
    let first = spectra.reflectivity.row(0).unwrap();
    for j in 0..1201 {
        let wavelength = spectra.wavelengths.get(j).unwrap();
        let film = fused_silica().index(wavelength).unwrap();
        assert_eq!(
            Ok(first[j]),
            reflectivity_sample(ONE, film, 3_500_000_000, 0, wavelength)
        );
        assert!((first[j] as f64 / ONE as f64 - bare).abs() < 5e-9);
    }
    assert_eq!(first[0], 308_641_974);
    assert_eq!(spectra.reflectivity.get(1_000, 0), Some(34_734_577));
    assert_eq!(spectra.reflectivity.get(1_000, 600), Some(38_610_735));
    assert_eq!(spectra.reflectivity.get(6_000, 1_200), Some(34_719_158));
}

#[test]
fn spectra_with_thickness_step_zero_are_an_invalid_range() {
    let mut config = silica_on_silicon();
    config.thickness_step = 0;
    assert!(matches!(
        compute_spectra(&config, &fused_silica()),
        Err(SpectraError::InvalidRange)
    ));
}

#[test]
fn spectra_with_an_invalid_wavelength_grid_are_an_invalid_range() {
    let mut config = silica_on_silicon();
    config.wavelength_stop = 100 * ONE;
    config.ambient = 0;
    assert!(matches!(
        compute_spectra(&config, &fused_silica()),
        Err(SpectraError::InvalidRange)
    ));
}

#[test]
fn spectra_over_a_wavelength_without_index_are_an_invalid_material() {
    let mut config = silica_on_silicon();
    config.wavelength_start = -ONE;
    config.wavelength_stop = ONE + 1;
    config.wavelength_step = ONE;
    config.thickness_stop = 10 * ONE;
    assert!(matches!(
        compute_spectra(&config, &fused_silica()),
        Err(SpectraError::InvalidMaterial)
    ));
}

#[test]
fn spectra_with_an_ambient_index_of_zero_are_an_invalid_material() {
    let mut config = silica_on_silicon();
    config.thickness_stop = 10 * ONE;
    config.ambient = 0;
    assert!(matches!(
        compute_spectra(&config, &fused_silica()),
        Err(SpectraError::InvalidMaterial)
    ));
}

#[test]
fn spectra_over_a_negative_thickness_are_an_invalid_range() {
    let mut config = silica_on_silicon();
    config.thickness_start = -3 * ONE;
    config.thickness_stop = 10 * ONE;
    assert!(matches!(
        compute_spectra(&config, &fused_silica()),
        Err(SpectraError::InvalidRange)
    ));
}

#[test]
fn spectra_follow_the_dispersion_law() {
    let mut config = silica_on_silicon();
    config.thickness_stop = 3 * ONE;
    config.wavelength_stop = 202 * ONE;
    let flat = Cauchy { a: 2 * ONE, b: 0 };
    let spectra = compute_spectra(&config, &flat).ok().unwrap();
    assert_eq!(spectra.reflectivity.nrows(), 3);
    assert_eq!(spectra.reflectivity.ncols(), 4);
    assert_eq!(
        spectra.reflectivity.get(2, 3),
        reflectivity_sample(ONE, 2 * ONE, 3_500_000_000, 2 * ONE, 201 * ONE + ONE / 2).ok()
    );
    let absent = Cauchy { a: 0, b: 0 };
    assert!(matches!(compute_spectra(&config, &absent), Err(SpectraError::InvalidMaterial)));
}

#[test]
fn spectra_hand_every_thousandth_thickness_to_a_plot() {
    let spectra = compute_spectra(&silica_on_silicon(), &fused_silica()).ok().unwrap();
    let series =
        select_series(&spectra.reflectivity, &spectra.thicknesses, &spectra.wavelengths, 1000)
            .ok()
            .unwrap();
    assert_eq!(series.len(), 7);
    for (k, curve) in series.iter().enumerate() {
        assert_eq!(curve.thickness, 1_000 * ONE * k as i64);
        assert_eq!(curve.points.len(), 1201);
        assert_eq!(curve.points[0].0, 200 * ONE);
        assert_eq!(curve.points[1200].0, 800 * ONE);
        assert_eq!(Some(curve.points[600].1), spectra.reflectivity.get(1000 * k, 600));
    }
}

#[test]
fn spectra_can_be_computed_unless_the_table_is_too_large() {
    assert!(silica_on_silicon().can_be_computed());
    let mut config = silica_on_silicon();
    config.thickness_step = 0;
    assert!(config.can_be_computed());
    let mut config = silica_on_silicon();
    config.wavelength_start = i64::MIN;
    config.wavelength_stop = i64::MAX;
    config.wavelength_step = 1;
    assert!(!config.can_be_computed());
    config.thickness_stop = 0;
    assert!(!config.can_be_computed());
    config.wavelength_step = i64::MAX;
    assert!(config.can_be_computed());
    let mut config = silica_on_silicon();
    config.wavelength_step = 1;
    config.thickness_step = 1;
    assert!(!config.can_be_computed());
}
