//! The errors of the library.

use vstd::prelude::*;

verus! {

/// Why a computation was refused.
#[derive(Clone, Copy, Debug, PartialEq, Eq, Structural)]
pub enum SpectraError {
    /// A grid has a non-positive step or a start beyond its stop, or a length
    /// that the optics need positive (a wavelength) or non-negative (a
    /// thickness) is not.
    InvalidRange,
    /// A refractive index is not positive, or cannot be represented.
    InvalidMaterial,
    /// Two sequences that must be aligned index by index differ in length.
    DimensionMismatch,
}

} // verus!
