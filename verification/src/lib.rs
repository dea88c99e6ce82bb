//! Reflectivity spectra of a thin dispersive film between an ambient medium and a
//! substrate, in exact fixed-point arithmetic.
//!
//! Every real quantity is carried as an `i64` count of billionths ([`fixed::ONE`]
//! raw units make up the real number one). Wavelengths are in nanometres,
//! thicknesses in angstroms, refractive indices are dimensionless.

pub mod accuracy;
pub mod arrays;
pub mod attenuation;
pub mod dispersion;
pub mod error;
pub mod fixed;
pub mod grid;
pub mod laws;
pub mod series;
pub mod solver;
pub mod spectra;
pub mod sweep;
