use thinfilm::arrays::Samples;
use thinfilm::error::SpectraError;
use thinfilm::solver::transfer_matrix_reflectivity;
use thinfilm::sweep::{spectra_sweep, table_fits_in_memory};

const ONE: i64 = 1_000_000_000;
const AIR: i64 = ONE;
const SILICON: i64 = 3_500_000_000;

fn profile() -> Samples {
    Samples::from_vec(vec![1_458_000_088, 1_458_000_014, 1_458_000_005])
}

fn wavelengths() -> Samples {
    Samples::from_vec(vec![200 * ONE, 500 * ONE, 800 * ONE])
}

#[test]
fn sweep_has_one_row_per_thickness_and_one_column_per_wavelength() {
    let thicknesses = Samples::from_vec(vec![0, 100 * ONE, 200 * ONE, 300 * ONE]);
    assert!(table_fits_in_memory(4, 3));
    let matrix = spectra_sweep(AIR, &profile(), SILICON, &thicknesses, &wavelengths()).unwrap();
    assert_eq!(matrix.nrows(), 4);
    assert_eq!(matrix.ncols(), 3);
    assert_eq!(matrix.get(4, 0), None);
    assert_eq!(matrix.get(0, 3), None);
    assert_eq!(matrix.row(4), None);
}

#[test]
fn sweep_row_belongs_to_the_thickness_at_its_position() {
    let values = vec![1_000 * ONE, 0, 250 * ONE, 6_000 * ONE, 10 * ONE];
    let thicknesses = Samples::from_vec(values.clone());
    let matrix = spectra_sweep(AIR, &profile(), SILICON, &thicknesses, &wavelengths()).unwrap();
    for (i, thickness) in values.iter().enumerate() {
        let row = transfer_matrix_reflectivity(AIR, &profile(), SILICON, *thickness, &wavelengths())
            .unwrap()
            .to_vec();
        assert_eq!(matrix.row(i), Some(row.clone()));
        for (j, value) in row.iter().enumerate() {
            assert_eq!(matrix.get(i, j), Some(*value));
        }
    }
    assert_eq!(matrix.get(0, 0), Some(34_734_577));
    assert_eq!(matrix.get(0, 1), Some(38_610_735));
    assert_eq!(matrix.get(1, 0), Some(308_641_974));
    assert_ne!(matrix.row(0), matrix.row(1));
}

#[test]
fn sweep_over_no_thickness_has_no_row() {
    let thicknesses = Samples::from_vec(Vec::new());
    let matrix = spectra_sweep(AIR, &profile(), SILICON, &thicknesses, &wavelengths()).unwrap();
    assert_eq!(matrix.nrows(), 0);
    assert_eq!(matrix.ncols(), 3);
}

#[test]
fn sweep_over_no_wavelength_has_empty_rows() {
    let empty = Samples::from_vec(Vec::new());
    let thicknesses = Samples::from_vec(vec![0, ONE]);
    let matrix = spectra_sweep(AIR, &empty, SILICON, &thicknesses, &empty).unwrap();
    assert_eq!(matrix.nrows(), 2);
    assert_eq!(matrix.ncols(), 0);
    assert_eq!(matrix.row(1), Some(Vec::new()));
}

#[test]
fn sweep_fails_with_the_error_of_the_first_refused_row() {
    let thicknesses = Samples::from_vec(vec![0, ONE, -1, 2 * ONE]);
    assert!(matches!(
        spectra_sweep(AIR, &profile(), SILICON, &thicknesses, &wavelengths()),
        Err(SpectraError::InvalidRange)
    ));
    let short = Samples::from_vec(vec![1_458_000_088]);
    assert!(matches!(
        spectra_sweep(AIR, &short, SILICON, &thicknesses, &wavelengths()),
        Err(SpectraError::DimensionMismatch)
    ));
    assert!(matches!(
        spectra_sweep(0, &profile(), SILICON, &thicknesses, &wavelengths()),
        Err(SpectraError::InvalidMaterial)
    ));
}

#[test]
fn sweep_over_no_thickness_refuses_nothing() {
    let thicknesses = Samples::from_vec(Vec::new());
    let short = Samples::from_vec(vec![1_458_000_088]);
    let matrix = spectra_sweep(0, &short, SILICON, &thicknesses, &wavelengths()).unwrap();
    assert_eq!(matrix.nrows(), 0);
}

#[test]
fn table_fits_in_memory_up_to_the_address_range() {
    assert!(table_fits_in_memory(0, 0));
    assert!(table_fits_in_memory(6001, 1201));
    assert!(table_fits_in_memory(0, isize::MAX as usize));
    assert!(!table_fits_in_memory(0, isize::MAX as usize + 1));
    assert!(!table_fits_in_memory(usize::MAX, 0));
    assert!(table_fits_in_memory(1, isize::MAX as usize / 8));
    assert!(!table_fits_in_memory(1, isize::MAX as usize / 8 + 1));
    assert!(!table_fits_in_memory(usize::MAX, usize::MAX));
    assert!(!table_fits_in_memory(1 << 32, 1 << 32));
}
