//! Label assignment policies.
//!
//! A biome picker maps `(seed, cell_x, cell_z)` to one label of a
//! caller-supplied finite variant set, purely and deterministically: the
//! same cell is looked up redundantly from the nine neighborhoods that
//! contain it, possibly from several threads, and every lookup must agree.
//!
//! The uniform policy picks `variants[hash(seed, cell_x, cell_z) mod n]`;
//! its index computation is verified here.  The weighted policy walks a
//! cumulative weight list against a per-cell pseudo-random draw; both the
//! weights and the draw are floating point, so that walk lives with the
//! host shell, outside the verified library.

use crate::utils::hash_of;
use crate::utils::hash_u64;
use vstd::prelude::*;

verus! {

/// Assigns one label to a cell.  Implementations must be pure and
/// deterministic in `(seed, cell_x, cell_z)` and free of shared mutable
/// state.
pub trait BiomePicker<BiomeT> {
    fn pick_biome(&self, seed: u64, cell_x: i32, cell_z: i32) -> BiomeT;
}

/// A finite, enumerable, copyable label set: the picker draws labels from
/// `variants()`.
pub trait Biome: Copy + Sized {
    fn variants() -> &'static [Self];
}

/// The label slot chosen by the uniform policy: the cell hash reduced
/// modulo the variant count.
pub open spec fn uniform_index_of(seed: u64, cell_x: i32, cell_z: i32, n: int) -> int {
    hash_of(seed, cell_x, cell_z) as int % n
}

/// Uniform label pick: every variant slot is equally likely over the hash
/// range.  Returns the slot `hash(seed, cell_x, cell_z) mod n`, always
/// below `n`.
pub fn uniform_index(seed: u64, cell_x: i32, cell_z: i32, n: usize) -> (r: usize)
    requires
        n >= 1,
    ensures
        r as int == uniform_index_of(seed, cell_x, cell_z, n as int),
        r < n,
{
    let h = hash_u64(seed, cell_x, cell_z);
    (h % (n as u64)) as usize
}

} // verus!
