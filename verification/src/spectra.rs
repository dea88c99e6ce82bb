//! Spectra from a description of the stack: both grids, the film's index
//! profile and the sweep, in one call.

use crate::arrays::{table_fits, ReflectivityMatrix, Samples};
use crate::dispersion::{
    profile_is_defined, profile_values, refractive_index_profile, DispersionLaw,
};
use crate::error::SpectraError;
use crate::grid::{grid_is_valid, grid_len, grid_values, uniform_grid};
use crate::solver::all_fractions;
use crate::sweep::{first_row_error, spectra_sweep, sweep_rows, table_fits_in_memory};
use vstd::prelude::*;

verus! {

/// What a computation of spectra starts from: the two grids and the indices
/// of the two media around the film, all in raw units.
#[derive(Clone, Copy, Debug)]
pub struct StackConfig {
    /// The first wavelength, in nanometres.
    pub wavelength_start: i64,
    /// The bound that the wavelengths stay below.
    pub wavelength_stop: i64,
    /// The distance from one wavelength to the next.
    pub wavelength_step: i64,
    /// The first film thickness, in angstroms.
    pub thickness_start: i64,
    /// The bound that the thicknesses stay below.
    pub thickness_stop: i64,
    /// The distance from one thickness to the next.
    pub thickness_step: i64,
    /// The refractive index of the ambient medium.
    pub ambient: i64,
    /// The refractive index of the substrate.
    pub substrate: i64,
}

/// The reflectivity of a stack over a wavelength grid and a thickness grid.
pub struct Spectra {
    /// The wavelength grid: one wavelength per column of the table.
    pub wavelengths: Samples,
    /// The thickness grid: one thickness per row of the table.
    pub thicknesses: Samples,
    /// The reflectivities.
    pub reflectivity: ReflectivityMatrix,
}

/// The number of samples of a valid grid, where it can be the side of a
/// table.
fn grid_count(start: i64, stop: i64, step: i64) -> (count: Option<usize>)
    requires
        grid_is_valid(start as int, stop as int, step as int),
    ensures
        match count {
            Some(n) => n == grid_len(start as int, stop as int, step as int),
            None => grid_len(start as int, stop as int, step as int) > isize::MAX,
        },
{
    let span: i128 = stop as i128 - start as i128 + step as i128 - 1;
    let count: i128 = span / (step as i128);
    assert(0 <= count <= span) by (nonlinear_arith)
        requires
            count == (span as int) / (step as int),
            span >= 0,
            step >= 1,
    ;
    if count > isize::MAX as i128 {
        None
    } else {
        Some(count as usize)
    }
}

impl StackConfig {
    /// Whether both grids are valid.
    pub open spec fn grids_are_valid(&self) -> bool {
        &&& grid_is_valid(
            self.wavelength_start as int,
            self.wavelength_stop as int,
            self.wavelength_step as int,
        )
        &&& grid_is_valid(
            self.thickness_start as int,
            self.thickness_stop as int,
            self.thickness_step as int,
        )
    }

    /// The wavelengths of the wavelength grid.
    pub open spec fn wavelengths(&self) -> Seq<i64> {
        grid_values(
            self.wavelength_start as int,
            self.wavelength_stop as int,
            self.wavelength_step as int,
        )
    }

    /// The thicknesses of the thickness grid.
    pub open spec fn thicknesses(&self) -> Seq<i64> {
        grid_values(
            self.thickness_start as int,
            self.thickness_stop as int,
            self.thickness_step as int,
        )
    }

    /// Whether the table of reflectivities can be asked for.
    pub open spec fn fits(&self) -> bool {
        table_fits(
            grid_len(
                self.thickness_start as int,
                self.thickness_stop as int,
                self.thickness_step as int,
            ),
            grid_len(
                self.wavelength_start as int,
                self.wavelength_stop as int,
                self.wavelength_step as int,
            ),
        )
    }

    /// Whether [`compute_spectra`] can be asked for these spectra: it can
    /// unless both grids are valid and the table is too large.
    pub fn can_be_computed(&self) -> (b: bool)
        ensures
            b == (self.grids_are_valid() ==> self.fits()),
    {
        if self.wavelength_step <= 0 || self.wavelength_start > self.wavelength_stop
            || self.thickness_step <= 0 || self.thickness_start > self.thickness_stop {
            return true;
        }
        let rows = grid_count(self.thickness_start, self.thickness_stop, self.thickness_step);
        let cols = grid_count(self.wavelength_start, self.wavelength_stop, self.wavelength_step);
        match (rows, cols) {
            (Some(rows), Some(cols)) => table_fits_in_memory(rows, cols),
            _ => false,
        }
    }
}

/// Why a computation of spectra is refused, if it is: an invalid grid comes
/// first, then a wavelength at which the dispersion law gives no index, then
/// the error of the first row that the optics refuse.
pub open spec fn spectra_error<L: DispersionLaw>(config: StackConfig, law: &L) -> Option<
    SpectraError,
> {
    if !config.grids_are_valid() {
        Some(SpectraError::InvalidRange)
    } else if !profile_is_defined(law, config.wavelengths()) {
        Some(SpectraError::InvalidMaterial)
    } else {
        first_row_error(
            config.ambient as int,
            profile_values(law, config.wavelengths()),
            config.substrate as int,
            config.thicknesses(),
            config.wavelengths(),
            0,
        )
    }
}

/// The reflectivity of the stack that `config` and `law` describe, over both
/// grids: the grids are built, then the film's index at every wavelength,
/// then the table row by row.
pub fn compute_spectra<L: DispersionLaw>(config: &StackConfig, law: &L) -> (r: Result<
    Spectra,
    SpectraError,
>)
    requires
        config.grids_are_valid() ==> config.fits(),
    ensures
        match r {
            Ok(spectra) => spectra_error(*config, law) is None && spectra.wavelengths@
                == config.wavelengths() && spectra.thicknesses@ == config.thicknesses()
                && spectra.reflectivity.width() == config.wavelengths().len() && (forall|i: int|
                0 <= i < spectra.reflectivity@.len() ==> all_fractions(
                    #[trigger] spectra.reflectivity@[i],
                )) && spectra.reflectivity@ == sweep_rows(
                config.ambient as int,
                profile_values(law, config.wavelengths()),
                config.substrate as int,
                config.thicknesses(),
                config.wavelengths(),
            ),
            Err(e) => spectra_error(*config, law) == Some(e),
        },
{
    let wavelengths = match uniform_grid(
        config.wavelength_start,
        config.wavelength_stop,
        config.wavelength_step,
    ) {
        Ok(grid) => grid,
        Err(e) => {
            return Err(e);
        },
    };
    let thicknesses = match uniform_grid(
        config.thickness_start,
        config.thickness_stop,
        config.thickness_step,
    ) {
        Ok(grid) => grid,
        Err(e) => {
            return Err(e);
        },
    };
    let profile = match refractive_index_profile(law, &wavelengths) {
        Ok(profile) => profile,
        Err(e) => {
            return Err(e);
        },
    };
    match spectra_sweep(config.ambient, &profile, config.substrate, &thicknesses, &wavelengths) {
        Ok(reflectivity) => Ok(Spectra { wavelengths, thicknesses, reflectivity }),
        Err(e) => Err(e),
    }
}

} // verus!
