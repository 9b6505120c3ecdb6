//! Cell jitter points and the neighborhood enumeration.
//!
//! Every grid cell owns one pseudo-random "jitter" point strictly inside
//! the unit square of the cell.  The fractional position on each axis is
//! a 16-bit value drawn from an independent hash of the cell (one seed
//! offset per axis), later divided by 65536 by the caller.  Only that
//! division is floating point, so the numerators are computed and pinned
//! here.  The 3x3 neighborhood around a query cell is walked in one fixed
//! order, which the tie-breaking of the nearest-cell selection relies on.

use crate::utils::hash_of;
use crate::utils::hash_u64;
use vstd::prelude::*;

verus! {

/// Seed offset that decorrelates the x-axis jitter from the cell's other
/// hashes.
pub const JITTER_SEED_X: u64 = 1337;

/// Seed offset that decorrelates the z-axis jitter from the x axis.
pub const JITTER_SEED_Z: u64 = 7331;

/// The 16-bit jitter numerator of a cell on the x axis: the low 16 bits
/// of the cell hash taken with the x-axis seed offset.
pub open spec fn cell_frac_x(seed: u64, cell_x: i32, cell_z: i32) -> u16 {
    (hash_of(seed.wrapping_add(JITTER_SEED_X), cell_x, cell_z) & 0xFFFF) as u16
}

/// The 16-bit jitter numerator of a cell on the z axis.
pub open spec fn cell_frac_z(seed: u64, cell_x: i32, cell_z: i32) -> u16 {
    (hash_of(seed.wrapping_add(JITTER_SEED_Z), cell_x, cell_z) & 0xFFFF) as u16
}

/// Jitter numerators of a cell, one per axis.  The jitter point of cell
/// `(cx, cz)` is `(cx + r.0 / 65536, cz + r.1 / 65536)`, strictly inside the cell; identical inputs
/// give identical numerators, so the point is deterministic.
pub fn cell_point_fracs(seed: u64, cell_x: i32, cell_z: i32) -> (r: (u16, u16))
    ensures
        r.0 == cell_frac_x(seed, cell_x, cell_z),
        r.1 == cell_frac_z(seed, cell_x, cell_z),
{
    let h1 = hash_u64(seed.wrapping_add(JITTER_SEED_X), cell_x, cell_z);
    let h2 = hash_u64(seed.wrapping_add(JITTER_SEED_Z), cell_x, cell_z);
    assert(h1 & 0xFFFF <= 0xFFFF) by (bit_vector);
    assert(h2 & 0xFFFF <= 0xFFFF) by (bit_vector);
    ((h1 & 0xFFFF) as u16, (h2 & 0xFFFF) as u16)
}

/// Number of cells in the 3x3 neighborhood that a query examines.
pub const NEIGHBOR_COUNT: usize = 9;

/// The fixed enumeration order of the 3x3 neighborhood: row by row from
/// `(-1, -1)` to `(1, 1)`.
pub open spec fn neighbor_offset_of(i: int) -> (int, int) {
    if i == 0 {
        (-1, -1)
    } else if i == 1 {
        (-1, 0)
    } else if i == 2 {
        (-1, 1)
    } else if i == 3 {
        (0, -1)
    } else if i == 4 {
        (0, 0)
    } else if i == 5 {
        (0, 1)
    } else if i == 6 {
        (1, -1)
    } else if i == 7 {
        (1, 0)
    } else {
        (1, 1)
    }
}

/// The `i`-th neighbor offset in the fixed enumeration order.  The slot
/// `i` of every candidate list follows this order, and ties in distance
/// are broken in its favor.
pub fn neighbor_offset(i: usize) -> (r: (i32, i32))
    requires
        i < NEIGHBOR_COUNT,
    ensures
        r.0 as int == neighbor_offset_of(i as int).0,
        r.1 as int == neighbor_offset_of(i as int).1,
{
    match i {
        0 => (-1, -1),
        1 => (-1, 0),
        2 => (-1, 1),
        3 => (0, -1),
        4 => (0, 0),
        5 => (0, 1),
        6 => (1, -1),
        7 => (1, 0),
        _ => (1, 1),
    }
}

} // verus!
