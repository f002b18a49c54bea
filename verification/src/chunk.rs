//! Fixed-size voxel storage for one chunk.
//!
//! A chunk owns `CHUNK_ARRAY_SIZE` block ids in a flat array indexed by
//! `x + CHUNK_SIZE * z + CHUNK_SIZE * CHUNK_SIZE * y` (z is the middle-order
//! axis), together with its own chunk coordinate. Block id 0 means empty air.

use vstd::prelude::*;
use crate::coords::{Vec3i, CHUNK_SIZE, CHUNK_ARRAY_SIZE};

verus! {

/// Block id reserved for empty space.
pub const AIR: u8 = 0;

/// One chunk of voxel data: its chunk-space coordinate and a dense array of
/// block ids, one per cell.
#[derive(Clone, Debug)]
pub struct Chunk {
    /// Chunk-space coordinate of this chunk.
    pub indices: Vec3i,
    /// Dense block-id storage, one entry per cell.
    pub voxels: Vec<u8>,
}

/// Flat storage index of the local cell `(x, y, z)`.
pub open spec fn spec_voxel_index(x: int, y: int, z: int) -> int {
    x + CHUNK_SIZE * z + CHUNK_SIZE * CHUNK_SIZE * y
}

impl Chunk {
    /// The voxel array always holds exactly one block id per cell.
    pub open spec fn wf(self) -> bool {
        self.voxels@.len() == CHUNK_ARRAY_SIZE
    }

    /// Block id stored at local coordinates `(x, y, z)`.
    pub open spec fn spec_voxel(self, x: int, y: int, z: int) -> u8 {
        self.voxels@[spec_voxel_index(x, y, z)]
    }

    /// Block id stored at flat index `i`.
    pub open spec fn spec_voxel_at(self, i: int) -> u8 {
        self.voxels@[i]
    }

    /// A chunk with every cell set to `fill`.
    pub fn new(indices: Vec3i, fill: u8) -> (c: Chunk)
        ensures
            c.wf(),
            c.indices == indices,
            forall|i: int| 0 <= i < CHUNK_ARRAY_SIZE ==> c.spec_voxel_at(i) == fill,
    {
        Chunk { indices, voxels: vec![fill; CHUNK_ARRAY_SIZE] }
    }

    /// Flat storage index of local cell `(x, y, z)`.
    pub fn voxel_index(x: usize, y: usize, z: usize) -> (i: usize)
        requires
            x < CHUNK_SIZE,
            y < CHUNK_SIZE,
            z < CHUNK_SIZE,
        ensures
            i == spec_voxel_index(x as int, y as int, z as int),
            i < CHUNK_ARRAY_SIZE,
    {
        x + CHUNK_SIZE * z + CHUNK_SIZE * CHUNK_SIZE * y
    }

    /// Writes block id `id` into the local cell `(x, y, z)`; every other cell
    /// keeps its block id. Out-of-range coordinates are a caller contract
    /// violation and are excluded up front.
    pub fn add_voxel(&mut self, id: u8, x: usize, y: usize, z: usize)
        requires
            old(self).wf(),
            x < CHUNK_SIZE,
            y < CHUNK_SIZE,
            z < CHUNK_SIZE,
        ensures
            final(self).wf(),
            final(self).indices == old(self).indices,
            final(self).spec_voxel(x as int, y as int, z as int) == id,
            forall|i: int| 0 <= i < CHUNK_ARRAY_SIZE
                && i != spec_voxel_index(x as int, y as int, z as int)
                ==> final(self).spec_voxel_at(i) == old(self).spec_voxel_at(i),
    {
        let i = Self::voxel_index(x, y, z);
        self.voxels.set(i, id);
    }

    /// Reads the block id of the local cell `(x, y, z)`. Out-of-range
    /// coordinates are a caller contract violation and are excluded up front.
    pub fn get_voxel(&self, x: usize, y: usize, z: usize) -> (id: u8)
        requires
            self.wf(),
            x < CHUNK_SIZE,
            y < CHUNK_SIZE,
            z < CHUNK_SIZE,
        ensures
            id == self.spec_voxel(x as int, y as int, z as int),
    {
        let i = Self::voxel_index(x, y, z);
        self.voxels[i]
    }

    /// An equal copy of this chunk.
    pub fn duplicate(&self) -> (c: Chunk)
        ensures
            c.indices == self.indices,
            c.voxels@ == self.voxels@,
    {
        let voxels = self.voxels.clone();
        proof {
            assert(voxels@ =~= self.voxels@);
        }
        Chunk { indices: self.indices, voxels }
    }

    /// Local coordinates `(x, y, z)` of the cell at flat index `i`: the exact
    /// inverse of the storage index formula.
    pub fn get_block_position(i: usize) -> (p: (usize, usize, usize))
        requires
            i < CHUNK_ARRAY_SIZE,
        ensures
            p.0 < CHUNK_SIZE,
            p.1 < CHUNK_SIZE,
            p.2 < CHUNK_SIZE,
            spec_voxel_index(p.0 as int, p.1 as int, p.2 as int) == i,
    {
        let p = (i % CHUNK_SIZE, i / (CHUNK_SIZE * CHUNK_SIZE), (i / CHUNK_SIZE) % CHUNK_SIZE);
        proof {
            lemma_voxel_index_inverse(i as int);
        }
        p
    }
}

/// The storage index formula is inverted exactly by mod and div with the
/// chunk dimensions: from `i = x + CHUNK_SIZE * z + CHUNK_SIZE^2 * y` the
/// coordinates are recovered as `i % CHUNK_SIZE`, `i / CHUNK_SIZE^2` and
/// `(i / CHUNK_SIZE) % CHUNK_SIZE`.
pub proof fn lemma_voxel_index_inverse(i: int)
    requires
        0 <= i < CHUNK_ARRAY_SIZE,
    ensures
        0 <= i % (CHUNK_SIZE as int) < CHUNK_SIZE,
        0 <= i / ((CHUNK_SIZE * CHUNK_SIZE) as int) < CHUNK_SIZE,
        0 <= (i / (CHUNK_SIZE as int)) % (CHUNK_SIZE as int) < CHUNK_SIZE,
        spec_voxel_index(
            i % (CHUNK_SIZE as int),
            i / ((CHUNK_SIZE * CHUNK_SIZE) as int),
            (i / (CHUNK_SIZE as int)) % (CHUNK_SIZE as int),
        ) == i,
{
    let s = CHUNK_SIZE as int;
    vstd::arithmetic::div_mod::lemma_fundamental_div_mod(i, s);
    vstd::arithmetic::div_mod::lemma_mod_bound(i, s);
    vstd::arithmetic::div_mod::lemma_fundamental_div_mod(i / s, s);
    vstd::arithmetic::div_mod::lemma_mod_bound(i / s, s);
    assert(i / s / s == i / (s * s)) by {
        vstd::arithmetic::div_mod::lemma_div_denominator(i, s, s);
    }
    assert(0 <= i / s) by {
        vstd::arithmetic::div_mod::lemma_div_is_ordered(0, i, s);
    }
    assert(i / s <= 4095int / 16) by {
        vstd::arithmetic::div_mod::lemma_div_is_ordered(i, 4095, s);
    }
    assert(i / (s * s) <= 4095int / 256) by {
        vstd::arithmetic::div_mod::lemma_div_is_ordered(i, 4095, s * s);
    }
}

/// The storage index formula sends distinct in-range coordinate triples to
/// distinct flat indices.
pub proof fn lemma_voxel_index_injective(x1: int, y1: int, z1: int, x2: int, y2: int, z2: int)
    requires
        0 <= x1 < CHUNK_SIZE,
        0 <= y1 < CHUNK_SIZE,
        0 <= z1 < CHUNK_SIZE,
        0 <= x2 < CHUNK_SIZE,
        0 <= y2 < CHUNK_SIZE,
        0 <= z2 < CHUNK_SIZE,
        !(x1 == x2 && y1 == y2 && z1 == z2),
    ensures
        spec_voxel_index(x1, y1, z1) != spec_voxel_index(x2, y2, z2),
{
}

} // verus!
