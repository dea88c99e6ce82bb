//! Uniform grids of samples, for wavelengths and for thicknesses.

use crate::arrays::{array_from_vec, Samples};
use crate::error::SpectraError;
use crate::fixed::lemma_quotient_of_sum;
use vstd::prelude::*;

verus! {

/// Whether `start`, `stop` and `step` describe a grid: a positive step, and a
/// start that is not beyond the stop.
pub open spec fn grid_is_valid(start: int, stop: int, step: int) -> bool {
    step > 0 && start <= stop
}

/// The number of samples `start, start + step, ...` that lie below `stop`.
pub open spec fn grid_len(start: int, stop: int, step: int) -> nat
    recommends
        grid_is_valid(start, stop, step),
{
    ((stop - start + step - 1) / step) as nat
}

/// The samples of a grid: `start + i * step` for every `i` that keeps the
/// sample below `stop`.
pub open spec fn grid_values(start: int, stop: int, step: int) -> Seq<i64>
    recommends
        grid_is_valid(start, stop, step),
{
    Seq::new(grid_len(start, stop, step), |i: int| (start + i * step) as i64)
}

/// The samples of a valid grid start at `start`, stay below `stop` and
/// increase strictly, each by `step` over the one before.
pub proof fn lemma_grid_is_ordered(start: i64, stop: i64, step: i64, i: int, j: int)
    requires
        grid_is_valid(start as int, stop as int, step as int),
        0 <= i < j < grid_len(start as int, stop as int, step as int),
    ensures
        grid_values(start as int, stop as int, step as int)[i] == start + i * step,
        grid_values(start as int, stop as int, step as int)[j] == start + j * step,
        start <= grid_values(start as int, stop as int, step as int)[i],
        grid_values(start as int, stop as int, step as int)[i] < grid_values(
            start as int,
            stop as int,
            step as int,
        )[j],
        grid_values(start as int, stop as int, step as int)[j] < stop,
{
    let n = grid_len(start as int, stop as int, step as int) as int;
    let span = stop - start + step - 1;
    vstd::arithmetic::div_mod::lemma_fundamental_div_mod(span, step as int);
    vstd::arithmetic::div_mod::lemma_mod_bound(span, step as int);
    assert(step * n <= span);
    assert(start + j * step < stop) by (nonlinear_arith)
        requires
            step * n <= stop - start + step - 1,
            j + 1 <= n,
            step > 0,
    ;
    assert(0 <= i * step < j * step) by (nonlinear_arith)
        requires
            0 <= i < j,
            step > 0,
    ;
}

/// The grid of samples `start, start + step, start + 2 * step, ...` below
/// `stop`, in raw units.
pub fn uniform_grid(start: i64, stop: i64, step: i64) -> (r: Result<Samples, SpectraError>)
    ensures
        match r {
            Ok(grid) => grid_is_valid(start as int, stop as int, step as int) && grid@
                == grid_values(start as int, stop as int, step as int),
            Err(e) => e == SpectraError::InvalidRange && !grid_is_valid(
                start as int,
                stop as int,
                step as int,
            ),
        },
{
    if step <= 0 || start > stop {
        return Err(SpectraError::InvalidRange);
    }
    let mut samples: Vec<i64> = Vec::new();
    let mut next: i128 = start as i128;
    let ghost mut taken: int = 0;
    assert(taken * step == 0) by (nonlinear_arith)
        requires
            taken == 0,
    ;
    while next < stop as i128
        invariant
            step > 0,
            start <= stop,
            taken == samples@.len(),
            next == start + taken * step,
            taken == 0 || next - step < stop,
            forall|i: int| 0 <= i < samples@.len() ==> #[trigger] samples@[i] == start + i * step,
        decreases stop - next + step,
    {
        assert((taken + 1) * step == taken * step + step) by (nonlinear_arith);
        assert(taken * step >= 0) by (nonlinear_arith)
            requires
                taken >= 0,
                step > 0,
        ;
        samples.push(next as i64);
        next = next + step as i128;
        proof {
            taken = taken + 1;
        }
    }
    proof {
        let rest = stop - start + step - 1 - taken * step;
        assert(0 <= rest < step);
        lemma_quotient_of_sum(taken, rest, step as int);
        assert(stop - start + step - 1 == taken * step + rest);
        assert(samples@ =~= grid_values(start as int, stop as int, step as int));
    }
    Ok(array_from_vec(samples))
}

} // verus!
