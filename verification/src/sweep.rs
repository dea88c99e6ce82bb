//! The sweep over the film thickness: one row of reflectivities per
//! thickness.

use crate::arrays::{
    array_get, array_len, matrix_assign_row, matrix_zeros, table_fits, ReflectivityMatrix, Samples,
};
use crate::error::SpectraError;
use crate::solver::{all_fractions, row_error, row_values, transfer_matrix_reflectivity};
use vstd::prelude::*;

verus! {

/// The error of the first thickness, from position `from` on, whose row the
/// optics refuse, or `None` where they accept every row.
pub open spec fn first_row_error(
    ambient: int,
    profile: Seq<i64>,
    substrate: int,
    thicknesses: Seq<i64>,
    wavelengths: Seq<i64>,
    from: int,
) -> Option<SpectraError>
    decreases thicknesses.len() - from,
{
    if from < 0 || from >= thicknesses.len() {
        None
    } else {
        match row_error(ambient, profile, substrate, thicknesses[from] as int, wavelengths) {
            Some(e) => Some(e),
            None => first_row_error(
                ambient,
                profile,
                substrate,
                thicknesses,
                wavelengths,
                from + 1,
            ),
        }
    }
}

/// The rows of a sweep: for each thickness, in the order of the thickness
/// grid, the reflectivity at every wavelength.
pub open spec fn sweep_rows(
    ambient: int,
    profile: Seq<i64>,
    substrate: int,
    thicknesses: Seq<i64>,
    wavelengths: Seq<i64>,
) -> Seq<Seq<i64>> {
    Seq::new(
        thicknesses.len(),
        |i: int| row_values(ambient, profile, substrate, thicknesses[i] as int, wavelengths),
    )
}

/// What a sweep comes to: the error of the first row that the optics refuse,
/// or all the rows.
pub open spec fn sweep_outcome(
    ambient: int,
    profile: Seq<i64>,
    substrate: int,
    thicknesses: Seq<i64>,
    wavelengths: Seq<i64>,
) -> Result<Seq<Seq<i64>>, SpectraError> {
    match first_row_error(ambient, profile, substrate, thicknesses, wavelengths, 0) {
        Some(e) => Err(e),
        None => Ok(sweep_rows(ambient, profile, substrate, thicknesses, wavelengths)),
    }
}

/// Where no row is refused from `from` on, none is refused at any later
/// position.
pub proof fn lemma_no_row_error(
    ambient: int,
    profile: Seq<i64>,
    substrate: int,
    thicknesses: Seq<i64>,
    wavelengths: Seq<i64>,
    from: int,
    i: int,
)
    requires
        0 <= from <= i < thicknesses.len(),
        first_row_error(ambient, profile, substrate, thicknesses, wavelengths, from) is None,
    ensures
        row_error(ambient, profile, substrate, thicknesses[i] as int, wavelengths) is None,
    decreases i - from,
{
    if from < i {
        lemma_no_row_error(ambient, profile, substrate, thicknesses, wavelengths, from + 1, i);
    }
}

/// Whether a table of `rows` by `cols` entries can be asked for.
pub fn table_fits_in_memory(rows: usize, cols: usize) -> (b: bool)
    ensures
        b == table_fits(rows as nat, cols as nat),
{
    if rows > isize::MAX as usize || cols > isize::MAX as usize {
        return false;
    }
    assert(rows * cols <= u64::MAX * u64::MAX) by (nonlinear_arith)
        requires
            rows <= u64::MAX,
            cols <= u64::MAX,
    ;
    let cells: u128 = (rows as u128) * (cols as u128);
    cells <= (isize::MAX as u128) / 8
}

/// The reflectivity of the stack for every thickness of the thickness grid
/// and every wavelength of the wavelength grid: row `i` belongs to thickness
/// `i`. The first thickness whose row the optics refuse ends the sweep with
/// that row's error.
pub fn spectra_sweep(
    ambient: i64,
    profile: &Samples,
    substrate: i64,
    thicknesses: &Samples,
    wavelengths: &Samples,
) -> (r: Result<ReflectivityMatrix, SpectraError>)
    requires
        table_fits(thicknesses@.len(), wavelengths@.len()),
    ensures
        match r {
            Ok(matrix) => sweep_outcome(
                ambient as int,
                profile@,
                substrate as int,
                thicknesses@,
                wavelengths@,
            ) == Ok::<Seq<Seq<i64>>, SpectraError>(matrix@) && matrix@.len() == thicknesses@.len()
                && matrix.width() == wavelengths@.len() && forall|i: int|
                0 <= i < matrix@.len() ==> all_fractions(#[trigger] matrix@[i]),
            Err(e) => sweep_outcome(
                ambient as int,
                profile@,
                substrate as int,
                thicknesses@,
                wavelengths@,
            ) == Err::<Seq<Seq<i64>>, SpectraError>(e),
        },
{
    let rows = array_len(thicknesses);
    let cols = array_len(wavelengths);
    let mut matrix = matrix_zeros(rows, cols);
    let mut i: usize = 0;
    while i < rows
        invariant
            rows == thicknesses@.len(),
            cols == wavelengths@.len(),
            i <= rows,
            matrix@.len() == rows,
            matrix.width() == cols,
            first_row_error(
                ambient as int,
                profile@,
                substrate as int,
                thicknesses@,
                wavelengths@,
                0,
            ) == first_row_error(
                ambient as int,
                profile@,
                substrate as int,
                thicknesses@,
                wavelengths@,
                i as int,
            ),
            forall|k: int| 0 <= k < i ==> all_fractions(#[trigger] matrix@[k]),
            forall|k: int|
                0 <= k < i ==> #[trigger] matrix@[k] == row_values(
                    ambient as int,
                    profile@,
                    substrate as int,
                    thicknesses@[k] as int,
                    wavelengths@,
                ),
        decreases rows - i,
    {
        let thickness = array_get(thicknesses, i);
        match transfer_matrix_reflectivity(ambient, profile, substrate, thickness, wavelengths) {
            Ok(row) => {
                matrix_assign_row(&mut matrix, i, &row);
            },
            Err(e) => {
                return Err(e);
            },
        }
        i = i + 1;
    }
    assert(matrix@ =~= sweep_rows(
        ambient as int,
        profile@,
        substrate as int,
        thicknesses@,
        wavelengths@,
    ));
    Ok(matrix)
}

} // verus!
