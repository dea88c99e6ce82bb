use thinfilm::arrays::Samples;
use thinfilm::error::SpectraError;
use thinfilm::series::select_series;
use thinfilm::sweep::spectra_sweep;

const ONE: i64 = 1_000_000_000;
const AIR: i64 = ONE;
const SILICON: i64 = 3_500_000_000;

fn profile() -> Samples {
    Samples::from_vec(vec![1_458_000_088, 1_458_000_014, 1_458_000_005])
}

fn wavelengths() -> Samples {
    Samples::from_vec(vec![200 * ONE, 500 * ONE, 800 * ONE])
}

fn thicknesses(count: i64) -> Samples {
    Samples::from_vec((0..count).map(|i| i * 100 * ONE).collect())
}

#[test]
fn selection_takes_every_row_of_the_stride() {
    let grid = thicknesses(7);
    let matrix = spectra_sweep(AIR, &profile(), SILICON, &grid, &wavelengths()).unwrap();
    let series = select_series(&matrix, &grid, &wavelengths(), 3).ok().unwrap();
    assert_eq!(series.len(), 3);
    for (k, curve) in series.iter().enumerate() {
        let row = matrix.row(3 * k).unwrap();
        assert_eq!(curve.thickness, 300 * ONE * k as i64);
        assert_eq!(
            curve.points,
            vec![(200 * ONE, row[0]), (500 * ONE, row[1]), (800 * ONE, row[2])]
        );
    }
    assert_eq!(series[0].points[0], (200 * ONE, 308_641_974));
}

#[test]
fn selection_counts_the_rows_it_takes() {
    let grid = thicknesses(7);
    let matrix = spectra_sweep(AIR, &profile(), SILICON, &grid, &wavelengths()).unwrap();
    for (stride, count) in [(1, 7), (2, 4), (3, 3), (6, 2), (7, 1), (8, 1), (usize::MAX, 1)] {
        let series = select_series(&matrix, &grid, &wavelengths(), stride).ok().unwrap();
        assert_eq!(series.len(), count);
        assert_eq!(series[0].thickness, 0);
    }
}

#[test]
fn selection_from_a_table_without_rows_is_empty() {
    let grid = thicknesses(0);
    let matrix = spectra_sweep(AIR, &profile(), SILICON, &grid, &wavelengths()).unwrap();
    let series = select_series(&matrix, &grid, &wavelengths(), 1000).ok().unwrap();
    assert_eq!(series.len(), 0);
}

#[test]
fn selection_with_stride_zero_is_an_invalid_range() {
    let grid = thicknesses(7);
    let matrix = spectra_sweep(AIR, &profile(), SILICON, &grid, &wavelengths()).unwrap();
    assert!(matches!(
        select_series(&matrix, &grid, &wavelengths(), 0),
        Err(SpectraError::InvalidRange)
    ));
    assert!(matches!(
        select_series(&matrix, &thicknesses(2), &wavelengths(), 0),
        Err(SpectraError::InvalidRange)
    ));
}

#[test]
fn selection_with_other_grids_is_a_dimension_mismatch() {
    let grid = thicknesses(7);
    let matrix = spectra_sweep(AIR, &profile(), SILICON, &grid, &wavelengths()).unwrap();
    assert!(matches!(
        select_series(&matrix, &thicknesses(6), &wavelengths(), 1),
        Err(SpectraError::DimensionMismatch)
    ));
    assert!(matches!(
        select_series(&matrix, &grid, &Samples::from_vec(vec![200 * ONE]), 1),
        Err(SpectraError::DimensionMismatch)
    ));
    let empty = spectra_sweep(AIR, &profile(), SILICON, &thicknesses(0), &wavelengths()).unwrap();
    assert!(matches!(
        select_series(&empty, &thicknesses(0), &Samples::from_vec(vec![200 * ONE]), 1),
        Err(SpectraError::DimensionMismatch)
    ));
}
