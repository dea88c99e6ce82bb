//! Curves for a plot: rows of a table of reflectivities, each with its
//! thickness and paired with the wavelengths.

use crate::arrays::{
    array_get, array_len, matrix_get, matrix_ncols, matrix_nrows, ReflectivityMatrix, Samples,
};
use crate::error::SpectraError;
use crate::fixed::lemma_quotient_of_sum;
use vstd::prelude::*;

verus! {

/// One curve of a spectrum: the reflectivity over the wavelength for one film
/// thickness.
pub struct Series {
    /// The film thickness that the curve belongs to, in angstroms.
    pub thickness: i64,
    /// The curve: pairs of a wavelength and the reflectivity at it, in the
    /// order of the wavelength grid.
    pub points: Vec<(i64, i64)>,
}

/// The number of rows that are taken where every `stride`-th of `rows` is,
/// beginning with the first.
pub open spec fn series_count(rows: nat, stride: nat) -> nat
    recommends
        stride > 0,
{
    ((rows + stride - 1) / (stride as int)) as nat
}

/// A row paired with the wavelengths, sample by sample.
pub open spec fn series_points(wavelengths: Seq<i64>, row: Seq<i64>) -> Seq<(i64, i64)> {
    Seq::new(wavelengths.len(), |j: int| (wavelengths[j], row[j]))
}

/// Whether `series` is the `k`-th selected curve: it belongs to row
/// `k * stride`, carries that row's thickness, and pairs that row with the
/// wavelengths.
pub open spec fn selected(
    series: Series,
    k: int,
    rows: Seq<Seq<i64>>,
    thicknesses: Seq<i64>,
    wavelengths: Seq<i64>,
    stride: nat,
) -> bool {
    &&& 0 <= k * stride < thicknesses.len()
    &&& series.thickness == thicknesses[k * stride]
    &&& series.points@ == series_points(wavelengths, rows[k * stride])
}

/// Why a selection is refused, if it is: a stride of zero comes first, then a
/// table whose sides are not those of the two grids.
pub open spec fn selection_error(
    rows: Seq<Seq<i64>>,
    width: nat,
    thicknesses: Seq<i64>,
    wavelengths: Seq<i64>,
    stride: nat,
) -> Option<SpectraError> {
    if stride == 0 {
        Some(SpectraError::InvalidRange)
    } else if rows.len() != thicknesses.len() || width != wavelengths.len() {
        Some(SpectraError::DimensionMismatch)
    } else {
        None
    }
}

/// The number of selected rows, computed.
fn count_series(rows: usize, stride: usize) -> (count: usize)
    requires
        stride > 0,
    ensures
        count == series_count(rows as nat, stride as nat),
        count > 0 ==> (count - 1) * stride < rows,
{
    let whole = rows / stride;
    let rest = rows % stride;
    proof {
        vstd::arithmetic::div_mod::lemma_fundamental_div_mod(rows as int, stride as int);
        assert(stride * whole == whole * stride) by (nonlinear_arith);
        assert((whole + 1) * stride == whole * stride + stride) by (nonlinear_arith);
        assert((whole - 1) * stride == whole * stride - stride) by (nonlinear_arith);
        if rest == 0 {
            lemma_quotient_of_sum(whole as int, stride - 1, stride as int);
        } else {
            lemma_quotient_of_sum(whole + 1, rest - 1, stride as int);
        }
    }
    if rest == 0 {
        whole
    } else {
        assert(whole < rows) by (nonlinear_arith)
            requires
                rows == whole * stride + rest,
                rest > 0,
                stride > 0,
                whole >= 0,
        ;
        whole + 1
    }
}

/// Row `i` of the table, paired with the wavelengths.
fn pair_row(matrix: &ReflectivityMatrix, i: usize, wavelengths: &Samples) -> (points: Vec<
    (i64, i64),
>)
    requires
        i < matrix@.len(),
        matrix.width() == wavelengths@.len(),
    ensures
        points@ == series_points(wavelengths@, matrix@[i as int]),
{
    let cols = array_len(wavelengths);
    let mut points: Vec<(i64, i64)> = Vec::new();
    let mut j: usize = 0;
    while j < cols
        invariant
            i < matrix@.len(),
            cols == wavelengths@.len(),
            cols == matrix.width(),
            j <= cols,
            points@.len() == j,
            forall|k: int|
                0 <= k < j ==> #[trigger] points@[k] == (wavelengths@[k], matrix@[i as int][k]),
        decreases cols - j,
    {
        points.push((array_get(wavelengths, j), matrix_get(matrix, i, j)));
        j = j + 1;
    }
    assert(points@ =~= series_points(wavelengths@, matrix@[i as int]));
    points
}

/// Every `stride`-th row of the table, beginning with the first, each with
/// the thickness it belongs to and paired with the wavelengths.
pub fn select_series(
    matrix: &ReflectivityMatrix,
    thicknesses: &Samples,
    wavelengths: &Samples,
    stride: usize,
) -> (r: Result<Vec<Series>, SpectraError>)
    ensures
        match r {
            Ok(series) => selection_error(
                matrix@,
                matrix.width(),
                thicknesses@,
                wavelengths@,
                stride as nat,
            ) is None && series@.len() == series_count(thicknesses@.len(), stride as nat)
                && forall|k: int|
                0 <= k < series@.len() ==> selected(
                    #[trigger] series@[k],
                    k,
                    matrix@,
                    thicknesses@,
                    wavelengths@,
                    stride as nat,
                ),
            Err(e) => selection_error(
                matrix@,
                matrix.width(),
                thicknesses@,
                wavelengths@,
                stride as nat,
            ) == Some(e),
        },
{
    if stride == 0 {
        return Err(SpectraError::InvalidRange);
    }
    let rows = array_len(thicknesses);
    if matrix_nrows(matrix) != rows || matrix_ncols(matrix) != array_len(wavelengths) {
        return Err(SpectraError::DimensionMismatch);
    }
    let count = count_series(rows, stride);
    let mut series: Vec<Series> = Vec::new();
    let mut k: usize = 0;
    while k < count
        invariant
            stride > 0,
            rows == thicknesses@.len(),
            rows == matrix@.len(),
            matrix.width() == wavelengths@.len(),
            count > 0 ==> (count - 1) * stride < rows,
            k <= count,
            series@.len() == k,
            forall|m: int|
                0 <= m < k ==> selected(
                    #[trigger] series@[m],
                    m,
                    matrix@,
                    thicknesses@,
                    wavelengths@,
                    stride as nat,
                ),
        decreases count - k,
    {
        assert(0 <= k * stride <= (count - 1) * stride) by (nonlinear_arith)
            requires
                0 <= k < count,
                stride > 0,
        ;
        let i: usize = k * stride;
        let thickness = array_get(thicknesses, i);
        let points = pair_row(matrix, i, wavelengths);
        series.push(Series { thickness, points });
        k = k + 1;
    }
    Ok(series)
}

} // verus!
