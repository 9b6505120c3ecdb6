//! Worley-noise biome blending kernel.
//!
//! For a continuous 2-D coordinate the sampler produces a small weighted
//! list of categorical "biome" labels that blend smoothly across region
//! boundaries.  The verified core below covers the deterministic,
//! integer-valued parts of that pipeline: the cell hash, the per-cell
//! jitter fractions, the uniform label pick, the k-nearest-cell selection
//! and the low-weight elimination step (both over order-preserving integer
//! keys).  The floating-point shell that scales, warps and weights the
//! coordinates lives outside the verified library.

pub mod biome_picker;
pub mod distance_fn;
pub mod select;
pub mod utils;
pub mod warp;
pub mod worley;

pub use utils::hash_u64;
