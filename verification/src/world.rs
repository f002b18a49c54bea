//! Sparse chunked voxel world.
//!
//! A `Vorld` maps chunk coordinates to chunks, created lazily on the first
//! voxel written into them. World coordinates are split into a chunk
//! coordinate (floor division by `CHUNK_SIZE`) and a local coordinate inside
//! that chunk; reads from a chunk that does not exist return air.

use vstd::prelude::*;
use crate::coords::{Vec3i, CHUNK_SIZE, spec_chunk_index, spec_local, chunk_index,
    position_in_chunk, lemma_coord_decompose};
use crate::chunk::{Chunk, AIR, spec_voxel_index, lemma_voxel_index_injective};

verus! {

/// The world: a sparse set of chunks with pairwise distinct chunk
/// coordinates.
#[derive(Clone, Debug)]
pub struct Vorld {
    /// The chunks, in order of creation; their `indices` are unique.
    pub chunks: Vec<Chunk>,
}

impl Vorld {
    /// Every chunk is well formed and no two chunks share a coordinate.
    pub open spec fn wf(self) -> bool {
        &&& forall|i: int| 0 <= i < self.chunks@.len() ==> (#[trigger] self.chunks@[i]).wf()
        &&& forall|i: int, j: int|
            0 <= i < self.chunks@.len() && 0 <= j < self.chunks@.len() && i != j
                ==> (#[trigger] self.chunks@[i]).indices != (#[trigger] self.chunks@[j]).indices
    }

    /// Whether a chunk with chunk coordinate `(kx, ky, kz)` exists.
    pub open spec fn has_chunk(self, kx: int, ky: int, kz: int) -> bool {
        exists|i: int|
            0 <= i < self.chunks@.len() && chunk_key_is(#[trigger] self.chunks@[i], kx, ky, kz)
    }

    /// The chunk with chunk coordinate `(kx, ky, kz)`, when one exists.
    pub open spec fn chunk_at(self, kx: int, ky: int, kz: int) -> Chunk {
        self.chunks@[choose|i: int|
            0 <= i < self.chunks@.len() && chunk_key_is(#[trigger] self.chunks@[i], kx, ky, kz)]
    }

    /// Block id of the world cell `(x, y, z)`: the cell of the chunk that
    /// contains the coordinate, or air when that chunk does not exist.
    pub open spec fn spec_voxel(self, x: int, y: int, z: int) -> u8 {
        if self.has_chunk(spec_chunk_index(x), spec_chunk_index(y), spec_chunk_index(z)) {
            self.chunk_at(spec_chunk_index(x), spec_chunk_index(y), spec_chunk_index(z))
                .spec_voxel(spec_local(x), spec_local(y), spec_local(z))
        } else {
            AIR
        }
    }

    /// An empty world with no chunks: every cell reads as air.
    pub fn new() -> (w: Vorld)
        ensures
            w.wf(),
            w.chunks@.len() == 0,
            forall|x: int, y: int, z: int| w.spec_voxel(x, y, z) == AIR,
    {
        Vorld { chunks: Vec::new() }
    }

    /// Position in the chunk list of the chunk with coordinate `key`, if any.
    fn find_chunk(&self, kx: i32, ky: i32, kz: i32) -> (r: Option<usize>)
        ensures
            match r {
                Some(i) => i < self.chunks@.len()
                    && chunk_key_is(self.chunks@[i as int], kx as int, ky as int, kz as int),
                None => !self.has_chunk(kx as int, ky as int, kz as int),
            },
    {
        let n = self.chunks.len();
        for i in 0..n
            invariant
                n == self.chunks@.len(),
                forall|j: int| 0 <= j < i
                    ==> !chunk_key_is(#[trigger] self.chunks@[j], kx as int, ky as int, kz as int),
        {
            let c = &self.chunks[i];
            if c.indices.x == kx && c.indices.y == ky && c.indices.z == kz {
                return Some(i);
            }
        }
        None
    }

    /// Writes block id `id` at world coordinates `(x, y, z)`. A chunk is
    /// created lazily, and only for a non-air write: a chunk exists exactly
    /// when a non-air voxel has been written into it, so writing air where
    /// no chunk exists changes nothing — the cell already reads air.
    /// Afterward the written cell holds `id`, every other cell is
    /// unchanged, and the chunk set has grown by at most the written
    /// cell's chunk, only on a non-air write.
    pub fn add_voxel(&mut self, id: u8, x: i32, y: i32, z: i32)
        requires
            old(self).wf(),
        ensures
            final(self).wf(),
            final(self).spec_voxel(x as int, y as int, z as int) == id,
            forall|a: int, b: int, c: int|
                !(a == x as int && b == y as int && c == z as int)
                    ==> final(self).spec_voxel(a, b, c) == old(self).spec_voxel(a, b, c),
            forall|ka: int, kb: int, kc: int|
                #[trigger] final(self).has_chunk(ka, kb, kc)
                    <==> old(self).has_chunk(ka, kb, kc)
                        || (id != AIR
                            && ka == spec_chunk_index(x as int)
                            && kb == spec_chunk_index(y as int)
                            && kc == spec_chunk_index(z as int)),
    {
        let kx = chunk_index(x);
        let ky = chunk_index(y);
        let kz = chunk_index(z);
        let lx = position_in_chunk(x);
        let ly = position_in_chunk(y);
        let lz = position_in_chunk(z);
        let ghost old_world = *self;
        match self.find_chunk(kx, ky, kz) {
            Some(i) => {
                let ghost idx = i as int;
                self.chunks[i].add_voxel(id, lx, ly, lz);
                proof {
                    assert(self.chunks@ =~= old_world.chunks@.update(idx, self.chunks@[idx]));
                    old_world.lemma_chunk_at_is(kx as int, ky as int, kz as int, idx);
                    self.lemma_chunk_at_is(kx as int, ky as int, kz as int, idx);
                    lemma_voxel_update(old_world, *self, idx, x as int, y as int, z as int, id);
                }
            },
            None => {
                if id != AIR {
                    let mut chunk = Chunk::new(Vec3i::new(kx, ky, kz), AIR);
                    chunk.add_voxel(id, lx, ly, lz);
                    let ghost idx = self.chunks@.len() as int;
                    self.chunks.push(chunk);
                    proof {
                        self.lemma_chunk_at_is(kx as int, ky as int, kz as int, idx);
                        lemma_voxel_insert(old_world, *self, idx, x as int, y as int, z as int,
                            id);
                    }
                }
            },
        }
    }

    /// Reads the block id at world coordinates `(x, y, z)`. Never fails:
    /// coordinates in a chunk that does not exist read as air.
    pub fn get_voxel(&self, x: i32, y: i32, z: i32) -> (id: u8)
        requires
            self.wf(),
        ensures
            id == self.spec_voxel(x as int, y as int, z as int),
    {
        let kx = chunk_index(x);
        let ky = chunk_index(y);
        let kz = chunk_index(z);
        match self.find_chunk(kx, ky, kz) {
            Some(i) => {
                proof {
                    self.lemma_chunk_at_is(kx as int, ky as int, kz as int, i as int);
                }
                self.chunks[i].get_voxel(position_in_chunk(x), position_in_chunk(y),
                    position_in_chunk(z))
            },
            None => AIR,
        }
    }

    /// A copy of the chunk whose coordinate is `key` offset by `offset`, if
    /// that chunk exists.
    pub fn get_adjacent_chunk(&self, key: Vec3i, dx: i32, dy: i32, dz: i32) -> (r: Option<Chunk>)
        requires
            self.wf(),
            -1 <= dx <= 1,
            -1 <= dy <= 1,
            -1 <= dz <= 1,
            i32::MIN < key.x < i32::MAX,
            i32::MIN < key.y < i32::MAX,
            i32::MIN < key.z < i32::MAX,
        ensures
            match r {
                Some(c) => self.has_chunk(key.x + dx, key.y + dy, key.z + dz)
                    && c.indices == self.chunk_at(key.x + dx, key.y + dy, key.z + dz).indices
                    && c.voxels@ == self.chunk_at(key.x + dx, key.y + dy, key.z + dz).voxels@,
                None => !self.has_chunk(key.x + dx, key.y + dy, key.z + dz),
            },
    {
        let kx = key.x + dx;
        let ky = key.y + dy;
        let kz = key.z + dz;
        match self.find_chunk(kx, ky, kz) {
            Some(i) => {
                proof {
                    self.lemma_chunk_at_is(kx as int, ky as int, kz as int, i as int);
                }
                Some(self.chunks[i].duplicate())
            },
            None => None,
        }
    }

    /// Gathers the chunk at `key` together with copies of its six
    /// face-adjacent neighbors, for meshing. `None` when `key` itself has no
    /// chunk; an absent neighbor means "no chunk generated there", which the
    /// mesher treats as empty.
    pub fn get_slice_for_chunk(&self, key: Vec3i) -> (r: Option<VorldSlice>)
        requires
            self.wf(),
            i32::MIN < key.x < i32::MAX,
            i32::MIN < key.y < i32::MAX,
            i32::MIN < key.z < i32::MAX,
        ensures
            match r {
                Some(s) => {
                    &&& self.has_chunk(key.x as int, key.y as int, key.z as int)
                    &&& s.wf()
                    &&& chunk_copies(s.chunk, self, key.x as int, key.y as int, key.z as int)
                    &&& neighbor_copies(s.up_chunk, self, key.x as int, key.y as int + 1,
                        key.z as int)
                    &&& neighbor_copies(s.down_chunk, self, key.x as int, key.y as int - 1,
                        key.z as int)
                    &&& neighbor_copies(s.right_chunk, self, key.x as int + 1, key.y as int,
                        key.z as int)
                    &&& neighbor_copies(s.left_chunk, self, key.x as int - 1, key.y as int,
                        key.z as int)
                    &&& neighbor_copies(s.forward_chunk, self, key.x as int, key.y as int,
                        key.z as int + 1)
                    &&& neighbor_copies(s.back_chunk, self, key.x as int, key.y as int,
                        key.z as int - 1)
                },
                None => !self.has_chunk(key.x as int, key.y as int, key.z as int),
            },
    {
        match self.find_chunk(key.x, key.y, key.z) {
            Some(i) => {
                proof {
                    self.lemma_chunk_at_is(key.x as int, key.y as int, key.z as int, i as int);
                }
                Some(VorldSlice {
                    chunk: self.chunks[i].duplicate(),
                    up_chunk: self.get_adjacent_chunk(key, 0, 1, 0),
                    down_chunk: self.get_adjacent_chunk(key, 0, -1, 0),
                    right_chunk: self.get_adjacent_chunk(key, 1, 0, 0),
                    left_chunk: self.get_adjacent_chunk(key, -1, 0, 0),
                    forward_chunk: self.get_adjacent_chunk(key, 0, 0, 1),
                    back_chunk: self.get_adjacent_chunk(key, 0, 0, -1),
                })
            },
            None => None,
        }
    }

    /// When `self.chunks[i]` carries coordinate `(kx, ky, kz)`, it is the one
    /// chunk that `chunk_at` denotes there.
    pub proof fn lemma_chunk_at_is(self, kx: int, ky: int, kz: int, i: int)
        requires
            self.wf(),
            0 <= i < self.chunks@.len(),
            chunk_key_is(self.chunks@[i], kx, ky, kz),
        ensures
            self.has_chunk(kx, ky, kz),
            self.chunk_at(kx, ky, kz) == self.chunks@[i],
    {
        let j = choose|j: int|
            0 <= j < self.chunks@.len() && chunk_key_is(#[trigger] self.chunks@[j], kx, ky, kz);
        assert(self.chunks@[j].indices == self.chunks@[i].indices);
    }
}

/// Whether chunk `c` carries the chunk coordinate `(kx, ky, kz)`.
pub open spec fn chunk_key_is(c: Chunk, kx: int, ky: int, kz: int) -> bool {
    c.indices.x == kx && c.indices.y == ky && c.indices.z == kz
}

/// Chunk `c` is an equal copy of the chunk of `w` at `(kx, ky, kz)`.
pub open spec fn chunk_copies(c: Chunk, w: &Vorld, kx: int, ky: int, kz: int) -> bool {
    &&& w.has_chunk(kx, ky, kz)
    &&& c.indices == w.chunk_at(kx, ky, kz).indices
    &&& c.voxels@ == w.chunk_at(kx, ky, kz).voxels@
}

/// `r` copies the chunk of `w` at `(kx, ky, kz)` exactly when that chunk
/// exists.
pub open spec fn neighbor_copies(r: Option<Chunk>, w: &Vorld, kx: int, ky: int, kz: int) -> bool {
    match r {
        Some(c) => chunk_copies(c, w, kx, ky, kz),
        None => !w.has_chunk(kx, ky, kz),
    }
}

/// Chunk and adjacent chunk data required to mesh one chunk: the chunk
/// itself plus copies of the up to six face-adjacent chunks that exist.
#[derive(Clone, Debug)]
pub struct VorldSlice {
    /// The chunk being meshed.
    pub chunk: Chunk,
    /// Neighbor chunk at +Y, if it exists.
    pub up_chunk: Option<Chunk>,
    /// Neighbor chunk at -Y, if it exists.
    pub down_chunk: Option<Chunk>,
    /// Neighbor chunk at -X, if it exists.
    pub left_chunk: Option<Chunk>,
    /// Neighbor chunk at +X, if it exists.
    pub right_chunk: Option<Chunk>,
    /// Neighbor chunk at +Z, if it exists.
    pub forward_chunk: Option<Chunk>,
    /// Neighbor chunk at -Z, if it exists.
    pub back_chunk: Option<Chunk>,
}

impl VorldSlice {
    /// Every chunk present in the slice is well formed.
    pub open spec fn wf(self) -> bool {
        &&& self.chunk.wf()
        &&& option_chunk_wf(self.up_chunk)
        &&& option_chunk_wf(self.down_chunk)
        &&& option_chunk_wf(self.left_chunk)
        &&& option_chunk_wf(self.right_chunk)
        &&& option_chunk_wf(self.forward_chunk)
        &&& option_chunk_wf(self.back_chunk)
    }
}

/// An optional chunk is well formed when absent or well formed.
pub open spec fn option_chunk_wf(r: Option<Chunk>) -> bool {
    match r {
        Some(c) => c.wf(),
        None => true,
    }
}

/// After updating, inside the one chunk at position `i`, the one cell that
/// world coordinates `(x, y, z)` map to, the world reads `id` there and is
/// unchanged at every other coordinate.
proof fn lemma_voxel_update(pre: Vorld, post: Vorld, i: int, x: int, y: int, z: int, id: u8)
    requires
        pre.wf(),
        post.wf(),
        0 <= i < pre.chunks@.len(),
        post.chunks@.len() == pre.chunks@.len(),
        chunk_key_is(pre.chunks@[i], spec_chunk_index(x), spec_chunk_index(y),
            spec_chunk_index(z)),
        forall|j: int| 0 <= j < pre.chunks@.len() && j != i
            ==> post.chunks@[j] == pre.chunks@[j],
        post.chunks@[i].indices == pre.chunks@[i].indices,
        post.chunks@[i].spec_voxel(spec_local(x), spec_local(y), spec_local(z)) == id,
        forall|n: int| 0 <= n < pre.chunks@[i].voxels@.len()
            && n != spec_voxel_index(spec_local(x), spec_local(y), spec_local(z))
            ==> post.chunks@[i].spec_voxel_at(n) == pre.chunks@[i].spec_voxel_at(n),
    ensures
        post.spec_voxel(x, y, z) == id,
        forall|a: int, b: int, c: int|
            !(a == x && b == y && c == z) ==> post.spec_voxel(a, b, c) == pre.spec_voxel(a, b, c),
        forall|ka: int, kb: int, kc: int|
            #[trigger] post.has_chunk(ka, kb, kc) <==> pre.has_chunk(ka, kb, kc),
{
    assert forall|ka: int, kb: int, kc: int|
        #[trigger] post.has_chunk(ka, kb, kc) <==> pre.has_chunk(ka, kb, kc) by {
        assert forall|j: int| 0 <= j < pre.chunks@.len()
            ==> (#[trigger] post.chunks@[j]).indices == pre.chunks@[j].indices by {};
    }
    post.lemma_chunk_at_is(spec_chunk_index(x), spec_chunk_index(y), spec_chunk_index(z), i);
    pre.lemma_chunk_at_is(spec_chunk_index(x), spec_chunk_index(y), spec_chunk_index(z), i);
    lemma_coord_decompose(x);
    lemma_coord_decompose(y);
    lemma_coord_decompose(z);
    assert forall|a: int, b: int, c: int|
        !(a == x && b == y && c == z)
            implies post.spec_voxel(a, b, c) == pre.spec_voxel(a, b, c) by {
        lemma_coord_decompose(a);
        lemma_coord_decompose(b);
        lemma_coord_decompose(c);
        let ka = spec_chunk_index(a);
        let kb = spec_chunk_index(b);
        let kc = spec_chunk_index(c);
        if ka == spec_chunk_index(x) && kb == spec_chunk_index(y) && kc == spec_chunk_index(z) {
            post.lemma_chunk_at_is(ka, kb, kc, i);
            pre.lemma_chunk_at_is(ka, kb, kc, i);
            if spec_local(a) == spec_local(x) && spec_local(b) == spec_local(y)
                && spec_local(c) == spec_local(z) {
                assert(a == x && b == y && c == z);
            } else {
                lemma_voxel_index_injective(spec_local(a), spec_local(b), spec_local(c),
                    spec_local(x), spec_local(y), spec_local(z));
                let n = spec_voxel_index(spec_local(a), spec_local(b), spec_local(c));
                assert(0 <= n < pre.chunks@[i].voxels@.len());
                assert(post.chunks@[i].spec_voxel_at(n) == pre.chunks@[i].spec_voxel_at(n));
            }
        } else {
            if pre.has_chunk(ka, kb, kc) {
                let j = choose|j: int| 0 <= j < pre.chunks@.len()
                    && chunk_key_is(#[trigger] pre.chunks@[j], ka, kb, kc);
                pre.lemma_chunk_at_is(ka, kb, kc, j);
                post.lemma_chunk_at_is(ka, kb, kc, j);
            }
        }
    }
}

/// After pushing a fresh chunk holding only the written cell, the world reads
/// `id` at `(x, y, z)`, air at the other cells of the new chunk, and is
/// unchanged at every coordinate of the chunks that already existed.
proof fn lemma_voxel_insert(pre: Vorld, post: Vorld, i: int, x: int, y: int, z: int, id: u8)
    requires
        pre.wf(),
        post.wf(),
        i == pre.chunks@.len(),
        post.chunks@.len() == pre.chunks@.len() + 1,
        forall|j: int| 0 <= j < pre.chunks@.len() ==> post.chunks@[j] == pre.chunks@[j],
        chunk_key_is(post.chunks@[i], spec_chunk_index(x), spec_chunk_index(y),
            spec_chunk_index(z)),
        !pre.has_chunk(spec_chunk_index(x), spec_chunk_index(y), spec_chunk_index(z)),
        post.chunks@[i].spec_voxel(spec_local(x), spec_local(y), spec_local(z)) == id,
        forall|n: int| 0 <= n < post.chunks@[i].voxels@.len()
            && n != spec_voxel_index(spec_local(x), spec_local(y), spec_local(z))
            ==> post.chunks@[i].spec_voxel_at(n) == AIR,
    ensures
        post.spec_voxel(x, y, z) == id,
        forall|a: int, b: int, c: int|
            !(a == x && b == y && c == z) ==> post.spec_voxel(a, b, c) == pre.spec_voxel(a, b, c),
        forall|ka: int, kb: int, kc: int|
            #[trigger] post.has_chunk(ka, kb, kc)
                <==> pre.has_chunk(ka, kb, kc)
                    || (ka == spec_chunk_index(x) && kb == spec_chunk_index(y)
                        && kc == spec_chunk_index(z)),
{
    post.lemma_chunk_at_is(spec_chunk_index(x), spec_chunk_index(y), spec_chunk_index(z), i);
    lemma_coord_decompose(x);
    lemma_coord_decompose(y);
    lemma_coord_decompose(z);
    assert forall|ka: int, kb: int, kc: int|
        #[trigger] post.has_chunk(ka, kb, kc)
            <==> pre.has_chunk(ka, kb, kc)
                || (ka == spec_chunk_index(x) && kb == spec_chunk_index(y)
                    && kc == spec_chunk_index(z)) by {
        if pre.has_chunk(ka, kb, kc) {
            let j = choose|j: int| 0 <= j < pre.chunks@.len()
                && chunk_key_is(#[trigger] pre.chunks@[j], ka, kb, kc);
            assert(chunk_key_is(post.chunks@[j], ka, kb, kc));
        }
        if post.has_chunk(ka, kb, kc) {
            let j = choose|j: int| 0 <= j < post.chunks@.len()
                && chunk_key_is(#[trigger] post.chunks@[j], ka, kb, kc);
            if j < pre.chunks@.len() {
                assert(chunk_key_is(pre.chunks@[j], ka, kb, kc));
            }
        }
    }
    assert forall|a: int, b: int, c: int|
        !(a == x && b == y && c == z)
            implies post.spec_voxel(a, b, c) == pre.spec_voxel(a, b, c) by {
        lemma_coord_decompose(a);
        lemma_coord_decompose(b);
        lemma_coord_decompose(c);
        let ka = spec_chunk_index(a);
        let kb = spec_chunk_index(b);
        let kc = spec_chunk_index(c);
        if ka == spec_chunk_index(x) && kb == spec_chunk_index(y) && kc == spec_chunk_index(z) {
            post.lemma_chunk_at_is(ka, kb, kc, i);
            if spec_local(a) == spec_local(x) && spec_local(b) == spec_local(y)
                && spec_local(c) == spec_local(z) {
                assert(a == x && b == y && c == z);
            } else {
                lemma_voxel_index_injective(spec_local(a), spec_local(b), spec_local(c),
                    spec_local(x), spec_local(y), spec_local(z));
                let n = spec_voxel_index(spec_local(a), spec_local(b), spec_local(c));
                assert(0 <= n < post.chunks@[i].voxels@.len());
                assert(post.chunks@[i].spec_voxel_at(n) == AIR);
                assert(!pre.has_chunk(ka, kb, kc));
            }
        } else {
            if pre.has_chunk(ka, kb, kc) {
                let j = choose|j: int| 0 <= j < pre.chunks@.len()
                    && chunk_key_is(#[trigger] pre.chunks@[j], ka, kb, kc);
                pre.lemma_chunk_at_is(ka, kb, kc, j);
                post.lemma_chunk_at_is(ka, kb, kc, j);
            }
        }
    }
}

} // verus!
