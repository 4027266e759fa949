use vstd::prelude::*;

verus! {

/// Why a spline or a grid surface could not be built.
#[derive(Debug, Clone, Copy, PartialEq, Eq, Structural)]
pub enum SplineError {
    /// Fewer than two points were supplied: nothing to interpolate between.
    InsufficientData,
    /// The value array of a grid does not hold one value per grid node.
    DimensionMismatch { actual: usize, expected: u128 },
}

} // verus!
