//! Distance metric vocabulary.
//!
//! A distance metric maps a 2-D displacement to a non-negative scalar and
//! shapes the cell boundaries: Euclidean gives round regions, Manhattan
//! diamonds, Chebyshev squares.  The metrics themselves are floating
//! point and live with the host shell; the closed set of policies is the
//! library's configuration vocabulary and is defined here.

use vstd::prelude::*;

verus! {

/// The closed set of distance policies.
#[derive(Clone, Copy, Debug, PartialEq, Eq, Structural)]
pub enum DistanceFn {
    /// `sqrt(dx^2 + dz^2)`.
    Euclidean,
    /// `dx^2 + dz^2`: the square of `Euclidean`, monotone in it, cheaper.
    EuclideanSquared,
    /// `|dx| + |dz|`.
    Manhattan,
    /// `max(|dx|, |dz|)`.
    Chebyshev,
    /// The arithmetic mean of `Euclidean` and `Chebyshev`: a fixed blend
    /// between round and square region shapes.
    Hybrid,
}

impl Default for DistanceFn {
    /// The default policy of the sampler.
    fn default() -> (r: Self)
        ensures
            r == DistanceFn::EuclideanSquared,
    {
        DistanceFn::EuclideanSquared
    }
}

} // verus!
