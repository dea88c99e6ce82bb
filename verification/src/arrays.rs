//! The two containers of the library, a sequence of samples and a table of
//! reflectivities, both kept in `ndarray` arrays.

use vstd::prelude::*;

verus! {

/// An ordered sequence of fixed-point samples, stored in a one-dimensional
/// `ndarray` array.
#[verifier::external_body]
pub struct Samples {
    inner: ndarray::Array1<i64>,
}

/// The samples that a [`Samples`] holds, first to last.
pub uninterp spec fn sample_values(s: Samples) -> Seq<i64>;

impl View for Samples {
    type V = Seq<i64>;

    open spec fn view(&self) -> Seq<i64> {
        sample_values(*self)
    }
}

/// `from_vec` of `ndarray::Array1`: the array holds the vector's elements in
/// the vector's order.
#[verifier::external_body]
pub(crate) fn array_from_vec(v: Vec<i64>) -> (s: Samples)
    ensures
        sample_values(s) == v@,
{
    Samples { inner: ndarray::Array1::from_vec(v) }
}

/// `len` of an `ndarray` array: the number of its elements.
#[verifier::external_body]
pub(crate) fn array_len(s: &Samples) -> (n: usize)
    ensures
        n == sample_values(*s).len(),
{
    s.inner.len()
}

/// Indexing a one-dimensional `ndarray` array with a `usize` in bounds gives
/// the element at that position.
#[verifier::external_body]
pub(crate) fn array_get(s: &Samples, i: usize) -> (x: i64)
    requires
        i < sample_values(*s).len(),
    ensures
        x == sample_values(*s)[i as int],
{
    s.inner[i]
}

impl Samples {
    /// Stores `v` as a sample sequence.
    pub fn from_vec(v: Vec<i64>) -> (s: Samples)
        ensures
            s@ == v@,
    {
        array_from_vec(v)
    }

    /// The number of samples.
    pub fn len(&self) -> (n: usize)
        ensures
            n == self@.len(),
    {
        array_len(self)
    }

    /// The sample at position `i`, or `None` past the end.
    pub fn get(&self, i: usize) -> (x: Option<i64>)
        ensures
            x == if i < self@.len() { Some(self@[i as int]) } else { None },
    {
        if i < array_len(self) {
            Some(array_get(self, i))
        } else {
            None
        }
    }

    /// A copy of the samples, in their order.
    pub fn to_vec(&self) -> (v: Vec<i64>)
        ensures
            v@ == self@,
    {
        let n = array_len(self);
        let mut v: Vec<i64> = Vec::new();
        let mut i: usize = 0;
        while i < n
            invariant
                n == self@.len(),
                i <= n,
                v@.len() == i,
                forall|k: int| 0 <= k < i ==> #[trigger] v@[k] == self@[k],
            decreases n - i,
        {
            v.push(array_get(self, i));
            i = i + 1;
        }
        assert(v@ =~= self@);
        v
    }
}

/// A table of fixed-point reflectivities, one row per film thickness and one
/// column per wavelength, stored in a two-dimensional `ndarray` array.
#[verifier::external_body]
pub struct ReflectivityMatrix {
    inner: ndarray::Array2<i64>,
}

/// The rows that a [`ReflectivityMatrix`] holds, first to last, each from its
/// first column to its last.
pub uninterp spec fn matrix_rows(m: ReflectivityMatrix) -> Seq<Seq<i64>>;

/// The number of columns of a [`ReflectivityMatrix`], which it has even
/// without a row.
pub uninterp spec fn matrix_width(m: ReflectivityMatrix) -> nat;

impl View for ReflectivityMatrix {
    type V = Seq<Seq<i64>>;

    open spec fn view(&self) -> Seq<Seq<i64>> {
        matrix_rows(*self)
    }
}

/// Whether a table of `rows` by `cols` entries of eight bytes can be asked
/// for: neither side nor the number of bytes may exceed `isize::MAX`.
pub open spec fn table_fits(rows: nat, cols: nat) -> bool {
    rows <= isize::MAX && cols <= isize::MAX && rows * cols * 8 <= isize::MAX
}

/// `zeros` of `ndarray::Array2` with the shape `(rows, cols)`: an array of
/// that shape whose every entry is zero. The call panics where the product of
/// the sides that are not zero, or the number of bytes, exceeds `isize::MAX`.
#[verifier::external_body]
pub(crate) fn matrix_zeros(rows: usize, cols: usize) -> (m: ReflectivityMatrix)
    requires
        table_fits(rows as nat, cols as nat),
    ensures
        matrix_rows(m) == Seq::new(rows as nat, |i: int| Seq::new(cols as nat, |j: int| 0i64)),
        matrix_width(m) == cols,
{
    ReflectivityMatrix { inner: ndarray::Array2::zeros((rows, cols)) }
}

/// `row_mut` of a two-dimensional `ndarray` array and, on the view it gives,
/// `assign`: row `i` takes the entries of `row`, every other row stays.
/// `row_mut` panics where `i` is no row; `assign` stretches a `row` of
/// another length to the row's where it can and panics where it cannot, so
/// the lengths must agree.
#[verifier::external_body]
pub(crate) fn matrix_assign_row(m: &mut ReflectivityMatrix, i: usize, row: &Samples)
    requires
        i < matrix_rows(*old(m)).len(),
        sample_values(*row).len() == matrix_width(*old(m)),
    ensures
        matrix_rows(*final(m)) == matrix_rows(*old(m)).update(i as int, sample_values(*row)),
        matrix_width(*final(m)) == matrix_width(*old(m)),
{
    m.inner.row_mut(i).assign(&row.inner);
}

/// `nrows` of a two-dimensional `ndarray` array: the number of its rows.
#[verifier::external_body]
pub(crate) fn matrix_nrows(m: &ReflectivityMatrix) -> (n: usize)
    ensures
        n == matrix_rows(*m).len(),
{
    m.inner.nrows()
}

/// `ncols` of a two-dimensional `ndarray` array: the number of its columns,
/// which is the length of every row.
#[verifier::external_body]
pub(crate) fn matrix_ncols(m: &ReflectivityMatrix) -> (n: usize)
    ensures
        n == matrix_width(*m),
        forall|i: int| 0 <= i < matrix_rows(*m).len() ==> (#[trigger] matrix_rows(*m)[i]).len() == n,
{
    m.inner.ncols()
}

/// Indexing a two-dimensional `ndarray` array with a pair in bounds gives
/// the entry in that row and column.
#[verifier::external_body]
pub(crate) fn matrix_get(m: &ReflectivityMatrix, i: usize, j: usize) -> (x: i64)
    requires
        i < matrix_rows(*m).len(),
        j < matrix_width(*m),
    ensures
        x == matrix_rows(*m)[i as int][j as int],
{
    m.inner[[i, j]]
}

impl ReflectivityMatrix {
    /// The number of columns.
    pub open spec fn width(&self) -> nat {
        matrix_width(*self)
    }

    /// The number of rows: one per film thickness.
    pub fn nrows(&self) -> (n: usize)
        ensures
            n == self@.len(),
    {
        matrix_nrows(self)
    }

    /// The number of columns: one per wavelength. Every row has this length.
    pub fn ncols(&self) -> (n: usize)
        ensures
            n == self.width(),
            forall|i: int| 0 <= i < self@.len() ==> (#[trigger] self@[i]).len() == n,
    {
        matrix_ncols(self)
    }

    /// The entry in row `i` and column `j`, or `None` outside the table.
    pub fn get(&self, i: usize, j: usize) -> (x: Option<i64>)
        ensures
            x == if i < self@.len() && j < self.width() {
                Some(self@[i as int][j as int])
            } else {
                None
            },
    {
        if i < matrix_nrows(self) && j < matrix_ncols(self) {
            Some(matrix_get(self, i, j))
        } else {
            None
        }
    }

    /// A copy of row `i`, or `None` where the table has no such row.
    pub fn row(&self, i: usize) -> (r: Option<Vec<i64>>)
        ensures
            match r {
                Some(entries) => i < self@.len() && entries@ == self@[i as int],
                None => i >= self@.len(),
            },
    {
        if i >= matrix_nrows(self) {
            return None;
        }
        let n = matrix_ncols(self);
        let mut entries: Vec<i64> = Vec::new();
        let mut j: usize = 0;
        while j < n
            invariant
                i < self@.len(),
                n == self.width(),
                n == self@[i as int].len(),
                j <= n,
                entries@.len() == j,
                forall|k: int| 0 <= k < j ==> #[trigger] entries@[k] == self@[i as int][k],
            decreases n - j,
        {
            entries.push(matrix_get(self, i, j));
            j = j + 1;
        }
        assert(entries@ =~= self@[i as int]);
        Some(entries)
    }
}

} // verus!
