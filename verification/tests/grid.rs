use thinfilm::error::SpectraError;
use thinfilm::grid::uniform_grid;

const ONE: i64 = 1_000_000_000;

fn values(start: i64, stop: i64, step: i64) -> Result<Vec<i64>, SpectraError> {
    uniform_grid(start, stop, step).map(|grid| grid.to_vec())
}

#[test]
fn wavelength_grid_of_half_nanometres_has_1201_samples() {
    let grid = values(200 * ONE, 800 * ONE + ONE / 2, ONE / 2).unwrap();
    assert_eq!(grid.len(), 1201);
    assert_eq!(grid[0], 200 * ONE);
    assert_eq!(grid[1], 200 * ONE + ONE / 2);
    assert_eq!(grid[600], 500 * ONE);
    assert_eq!(grid[1200], 800 * ONE);
}

#[test]
fn thickness_grid_of_angstroms_has_6001_samples() {
    let grid = values(0, 6001 * ONE, ONE).unwrap();
    assert_eq!(grid.len(), 6001);
    assert_eq!(grid[0], 0);
    assert_eq!(grid[6000], 6000 * ONE);
}

#[test]
fn grid_stops_below_the_bound() {
    assert_eq!(values(0, 10, 3), Ok(vec![0, 3, 6, 9]));
    assert_eq!(values(0, 9, 3), Ok(vec![0, 3, 6]));
    assert_eq!(values(0, 1, 3), Ok(vec![0]));
    assert_eq!(values(-5, 5, 4), Ok(vec![-5, -1, 3]));
}

#[test]
fn grid_samples_increase_strictly_by_the_step() {
    let grid = values(-7, 1_000, 13).unwrap();
    assert_eq!(grid.len(), 78);
    for i in 1..grid.len() {
        assert_eq!(grid[i] - grid[i - 1], 13);
    }
    assert!(*grid.last().unwrap() < 1_000);
}

#[test]
fn grid_from_a_bound_to_itself_is_empty() {
    assert_eq!(values(5, 5, 1), Ok(Vec::new()));
    assert_eq!(values(0, 0, ONE), Ok(Vec::new()));
}

#[test]
fn grid_with_step_zero_is_an_invalid_range() {
    assert_eq!(values(0, 6001 * ONE, 0), Err(SpectraError::InvalidRange));
    assert_eq!(values(5, 5, 0), Err(SpectraError::InvalidRange));
}

#[test]
fn grid_with_negative_step_is_an_invalid_range() {
    assert_eq!(values(0, 10, -1), Err(SpectraError::InvalidRange));
    assert_eq!(values(10, 0, -1), Err(SpectraError::InvalidRange));
}

#[test]
fn grid_with_start_beyond_stop_is_an_invalid_range() {
    assert_eq!(values(10, 0, 1), Err(SpectraError::InvalidRange));
    assert_eq!(values(1, 0, ONE), Err(SpectraError::InvalidRange));
}

#[test]
fn grid_at_the_ends_of_the_number_range() {
    assert_eq!(values(i64::MAX - 1, i64::MAX, 1), Ok(vec![i64::MAX - 1]));
    assert_eq!(values(i64::MAX - 1, i64::MAX, i64::MAX), Ok(vec![i64::MAX - 1]));
    assert_eq!(values(i64::MIN, i64::MAX, i64::MAX), Ok(vec![i64::MIN, -1, i64::MAX - 1]));
}
