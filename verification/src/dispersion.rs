//! Dispersion laws: the refractive index of the film as a function of the
//! wavelength.

use crate::arrays::{array_from_vec, array_get, array_len, Samples};
use crate::error::SpectraError;
use crate::fixed::{lemma_trunc_div_within, trunc_div, ONE};
use vstd::prelude::*;

verus! {

/// A dispersion law: the refractive index of a material as a function of the
/// wavelength.
pub trait DispersionLaw {
    /// The index at a wavelength in nanometres, or `None` where the law gives
    /// none that can be represented.
    spec fn index_at(&self, wavelength: i64) -> Option<i64>;

    /// Computes the index at a wavelength.
    fn index(&self, wavelength: i64) -> (n: Option<i64>)
        ensures
            n == self.index_at(wavelength),
    ;
}

/// The two-term Cauchy law `n = a + b / wavelength^2`.
#[derive(Clone, Copy, Debug)]
pub struct Cauchy {
    /// The index at long wavelengths.
    pub a: i64,
    /// The strength of the dispersion, in square nanometres.
    pub b: i64,
}

/// The value of the Cauchy law, `a + b / wavelength^2`, for a wavelength that
/// is not zero.
pub open spec fn cauchy_index(a: int, b: int, wavelength: int) -> int
    recommends
        wavelength != 0,
{
    a + trunc_div(b * ONE * ONE, wavelength * wavelength)
}

impl DispersionLaw for Cauchy {
    open spec fn index_at(&self, wavelength: i64) -> Option<i64> {
        let n = cauchy_index(self.a as int, self.b as int, wavelength as int);
        if wavelength != 0 && i64::MIN <= n <= i64::MAX {
            Some(n as i64)
        } else {
            None
        }
    }

    fn index(&self, wavelength: i64) -> (n: Option<i64>) {
        if wavelength == 0 {
            return None;
        }
        let w: i128 = wavelength as i128;
        let b: i128 = self.b as i128;
        let unit: i128 = (ONE as i128) * (ONE as i128);
        assert(0 < w * w <= i64::MIN * i64::MIN) by (nonlinear_arith)
            requires
                i64::MIN <= w <= i64::MAX,
                w != 0,
        ;
        assert(i64::MIN * unit <= b * unit <= -(i64::MIN * unit) && b * unit == b * ONE * ONE)
            by (nonlinear_arith)
            requires
                i64::MIN <= b <= i64::MAX,
                unit == ONE * ONE,
        ;
        let square: i128 = w * w;
        let strength: i128 = b * unit;
        let term: i128 = strength / square;
        proof {
            let bound = -(i64::MIN * unit);
            assert(-(bound * square) <= strength <= bound * square) by (nonlinear_arith)
                requires
                    -bound <= strength <= bound,
                    square >= 1,
            ;
            lemma_trunc_div_within(strength as int, square as int, bound);
        }
        let n: i128 = self.a as i128 + term;
        if n < i64::MIN as i128 || n > i64::MAX as i128 {
            None
        } else {
            Some(n as i64)
        }
    }
}

/// Whether the law gives an index at every wavelength of the grid.
pub open spec fn profile_is_defined<L: DispersionLaw>(law: &L, wavelengths: Seq<i64>) -> bool {
    forall|i: int| 0 <= i < wavelengths.len() ==> (#[trigger] law.index_at(wavelengths[i])) is Some
}

/// The index that the law gives at each wavelength of the grid.
pub open spec fn profile_values<L: DispersionLaw>(law: &L, wavelengths: Seq<i64>) -> Seq<i64>
    recommends
        profile_is_defined(law, wavelengths),
{
    Seq::new(wavelengths.len(), |i: int| law.index_at(wavelengths[i])->0)
}

/// The refractive index of a material at every wavelength of the grid, one
/// index per wavelength and in the grid's order.
pub fn refractive_index_profile<L: DispersionLaw>(law: &L, wavelengths: &Samples) -> (r: Result<
    Samples,
    SpectraError,
>)
    ensures
        match r {
            Ok(profile) => profile_is_defined(law, wavelengths@) && profile@.len()
                == wavelengths@.len() && profile@ == profile_values(law, wavelengths@),
            Err(e) => e == SpectraError::InvalidMaterial && !profile_is_defined(
                law,
                wavelengths@,
            ),
        },
{
    let n = array_len(wavelengths);
    let mut indices: Vec<i64> = Vec::new();
    let mut i: usize = 0;
    while i < n
        invariant
            n == wavelengths@.len(),
            i <= n,
            indices@.len() == i,
            forall|j: int|
                0 <= j < i ==> (#[trigger] law.index_at(wavelengths@[j])) == Some(indices@[j]),
        decreases n - i,
    {
        match law.index(array_get(wavelengths, i)) {
            Some(index) => {
                indices.push(index);
            },
            None => {
                return Err(SpectraError::InvalidMaterial);
            },
        }
        i = i + 1;
    }
    let profile = array_from_vec(indices);
    assert(profile@ =~= profile_values(law, wavelengths@));
    Ok(profile)
}

} // verus!
