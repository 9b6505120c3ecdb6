//! Deterministic cell hashing.
//!
//! Every source of pseudo-randomness in the sampler is rooted in one
//! 64-bit hash of `(seed, cell_x, cell_z)`, computed with the standard
//! library's `DefaultHasher`.  vstd models that hasher as a function of
//! the sequence of byte strings written to it, which lets the hash value
//! be pinned exactly: identical inputs give bit-identical hashes.

use std::collections::hash_map::DefaultHasher;
use std::hash::Hasher;
use vstd::prelude::*;
use vstd::std_specs::hash::DefaultHasherAdditionalSpecFns;

verus! {

/// The little-endian byte string of a `u64`, as written to the hasher.
pub open spec fn u64_le_bytes(v: u64) -> Seq<u8> {
    seq![
        (v & 0xFF) as u8,
        ((v >> 8) & 0xFF) as u8,
        ((v >> 16) & 0xFF) as u8,
        ((v >> 24) & 0xFF) as u8,
        ((v >> 32) & 0xFF) as u8,
        ((v >> 40) & 0xFF) as u8,
        ((v >> 48) & 0xFF) as u8,
        ((v >> 56) & 0xFF) as u8,
    ]
}

/// The little-endian byte string of an `i32` (two's complement).
pub open spec fn i32_le_bytes(v: i32) -> Seq<u8> {
    let u = v as u32;
    seq![
        (u & 0xFF) as u8,
        ((u >> 8) & 0xFF) as u8,
        ((u >> 16) & 0xFF) as u8,
        ((u >> 24) & 0xFF) as u8,
    ]
}

/// The hash value of a cell: what `DefaultHasher` returns after the seed
/// and the two cell coordinates have been written, in that order.
pub open spec fn hash_of(seed: u64, x: i32, z: i32) -> u64 {
    DefaultHasher::spec_finish(seq![u64_le_bytes(seed), i32_le_bytes(x), i32_le_bytes(z)])
}

/// Root hash of the sampler: a deterministic 64-bit mix of the seed and a
/// cell position.  Two calls with equal arguments return the same value.
pub fn hash_u64(seed: u64, x: i32, z: i32) -> (r: u64)
    ensures
        r == hash_of(seed, x, z),
{
    let mut hasher = DefaultHasher::new();
    let sb: [u8; 8] = [
        (seed & 0xFF) as u8,
        ((seed >> 8) & 0xFF) as u8,
        ((seed >> 16) & 0xFF) as u8,
        ((seed >> 24) & 0xFF) as u8,
        ((seed >> 32) & 0xFF) as u8,
        ((seed >> 40) & 0xFF) as u8,
        ((seed >> 48) & 0xFF) as u8,
        ((seed >> 56) & 0xFF) as u8,
    ];
    assert(sb@ =~= u64_le_bytes(seed));
    hasher.write(&sb);
    let xu = x as u32;
    let xb: [u8; 4] = [
        (xu & 0xFF) as u8,
        ((xu >> 8) & 0xFF) as u8,
        ((xu >> 16) & 0xFF) as u8,
        ((xu >> 24) & 0xFF) as u8,
    ];
    assert(xb@ =~= i32_le_bytes(x));
    hasher.write(&xb);
    let zu = z as u32;
    let zb: [u8; 4] = [
        (zu & 0xFF) as u8,
        ((zu >> 8) & 0xFF) as u8,
        ((zu >> 16) & 0xFF) as u8,
        ((zu >> 24) & 0xFF) as u8,
    ];
    assert(zb@ =~= i32_le_bytes(z));
    hasher.write(&zb);
    assert(hasher@ =~= seq![u64_le_bytes(seed), i32_le_bytes(x), i32_le_bytes(z)]);
    hasher.finish()
}

/// Seed of the per-cell pseudo-random generator used by the weighted
/// label policy: the sampler seed folded with both cell coordinates, so
/// that draws for different cells are independent of each other and of
/// any shared generator.
pub fn combine_seed(seed: u64, x: i32, z: i32) -> (r: u64)
    ensures
        r == seed ^ ((x as u64) << 32) ^ (z as u64),
{
    seed ^ ((x as u64) << 32) ^ (z as u64)
}

} // verus!
