//! Domain-warp configuration vocabulary.
//!
//! The query coordinate is displaced by a fractal scalar noise field
//! before the cell lookup, so region boundaries do not follow the grid.
//! The field itself is an outside primitive, compiled once from the warp
//! settings and merely evaluated per query; its settings and evaluation
//! are floating point and live with the host shell.  The closed sets of
//! noise and fractal families it can be built from are plain enumerations
//! and are defined here, so that configuration values the contracts and
//! tests speak of are types of the library.

use vstd::prelude::*;

verus! {

/// Base noise family the warp field is built from.
#[derive(Clone, Copy, Debug, PartialEq, Eq, Structural)]
pub enum NoiseType {
    Value,
    ValueFractal,
    Perlin,
    PerlinFractal,
    Simplex,
    SimplexFractal,
    Cellular,
    WhiteNoise,
    Cubic,
    CubicFractal,
}

/// Interpolation function a noise field can be configured with.
#[derive(Clone, Copy, Debug, PartialEq, Eq, Structural)]
pub enum Interp {
    Linear,
    Hermite,
    Quintic,
}

/// Fractal combination of the base noise octaves.
#[derive(Clone, Copy, Debug, PartialEq, Eq, Structural)]
pub enum FractalType {
    FBM,
    Billow,
    RigidMulti,
}

} // verus!
