//! Integer coordinate arithmetic for the chunked voxel world.
//!
//! World space is an unbounded grid of voxels addressed by `i32` coordinates.
//! Chunks are axis-aligned cubes of `CHUNK_SIZE` voxels per axis; every world
//! coordinate maps to the chunk containing it by floor division, and to a
//! local coordinate inside that chunk in `[0, CHUNK_SIZE)`.

use vstd::prelude::*;

verus! {

/// Number of voxels along each axis of a chunk.
pub const CHUNK_SIZE: usize = 16;

/// `CHUNK_SIZE` as an `i32`, for world-coordinate arithmetic.
pub const CHUNK_SIZE_I32: i32 = 16;

/// Total number of voxels in one chunk (`CHUNK_SIZE` cubed).
pub const CHUNK_ARRAY_SIZE: usize = CHUNK_SIZE * CHUNK_SIZE * CHUNK_SIZE;

/// A triple of integer coordinates: a world voxel position or a chunk key.
#[derive(Clone, Copy, PartialEq, Eq, Structural, Debug, Hash)]
pub struct Vec3i {
    pub x: i32,
    pub y: i32,
    pub z: i32,
}

impl Vec3i {
    pub fn new(x: i32, y: i32, z: i32) -> (v: Vec3i)
        ensures
            v.x == x,
            v.y == y,
            v.z == z,
    {
        Vec3i { x, y, z }
    }
}

/// Chunk coordinate, on one axis, of the chunk containing world coordinate
/// `v`: floor division by `CHUNK_SIZE`.
pub open spec fn spec_chunk_index(v: int) -> int {
    v / (CHUNK_SIZE as int)
}

/// Local coordinate of world coordinate `v` inside its chunk, always in
/// `[0, CHUNK_SIZE)`.
pub open spec fn spec_local(v: int) -> int {
    v % (CHUNK_SIZE as int)
}

/// A world coordinate is determined by its chunk coordinate and its local
/// coordinate, and conversely.
pub proof fn lemma_coord_decompose(v: int)
    ensures
        v == spec_chunk_index(v) * (CHUNK_SIZE as int) + spec_local(v),
        0 <= spec_local(v) < CHUNK_SIZE as int,
{
    vstd::arithmetic::div_mod::lemma_fundamental_div_mod(v, CHUNK_SIZE as int);
    vstd::arithmetic::div_mod::lemma_mod_bound(v, CHUNK_SIZE as int);
}

/// Chunk coordinate, on one axis, of the chunk containing world coordinate
/// `v`: true floor division by `CHUNK_SIZE`, correct for negative coordinates
/// where truncating division would err toward zero.
pub fn chunk_index(v: i32) -> (r: i32)
    ensures
        r == spec_chunk_index(v as int),
{
    if v >= 0 || v % CHUNK_SIZE_I32 == 0 {
        v / CHUNK_SIZE_I32
    } else {
        (v / CHUNK_SIZE_I32) - 1
    }
}

/// Local coordinate of world coordinate `v` inside its chunk, always in
/// `[0, CHUNK_SIZE)`.
pub fn position_in_chunk(v: i32) -> (r: usize)
    ensures
        r == spec_local(v as int),
        r < CHUNK_SIZE,
    {
    let c = chunk_index(v);
    proof {
        lemma_local_coordinate_in_range(v as int);
        lemma_coord_decompose(v as int);
    }
    (v - c * CHUNK_SIZE_I32) as usize
}

/// The local coordinate `v - floor(v / CHUNK_SIZE) * CHUNK_SIZE` lies in
/// `[0, CHUNK_SIZE)` for every world coordinate `v`.
pub proof fn lemma_local_coordinate_in_range(v: int)
    ensures
        0 <= v - (v / (CHUNK_SIZE as int)) * (CHUNK_SIZE as int) < CHUNK_SIZE as int,
{
    vstd::arithmetic::div_mod::lemma_fundamental_div_mod(v, CHUNK_SIZE as int);
    vstd::arithmetic::div_mod::lemma_mod_bound(v, CHUNK_SIZE as int);
}

} // verus!
