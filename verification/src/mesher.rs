//! Face meshing: converting a chunk slice into per-tile triangle meshes.
//!
//! Every exposed face of a solid voxel becomes one unit quad (4 vertices,
//! 2 triangles) in the mesh of the face's tile id. A face is exposed when
//! the adjacent cell — inside the chunk, or across the chunk boundary in the
//! slice's neighbor chunk — is air; a missing neighbor chunk counts as air.
//!
//! Vertex positions are corner coordinates local to the chunk (the renderer
//! places the mesh at `chunk_coordinate * CHUNK_SIZE`); normals are unit
//! axis vectors; texture coordinates are 0 or 1. The quad layout per
//! direction is fixed data, centralized in `face_corner`, `face_uv` and
//! `face_normal`.

use vstd::prelude::*;
use crate::coords::{CHUNK_SIZE, CHUNK_ARRAY_SIZE};
use crate::direction::Direction;
use crate::chunk::{Chunk, AIR, spec_voxel_index, lemma_voxel_index_injective};
use crate::world::VorldSlice;
use crate::config::VoxelConfig;

verus! {

/// A face request: the direction and the local cell coordinates of one
/// exposed face awaiting meshing.
pub type FaceRequest = (Direction, (usize, usize, usize));

/// Whether `(x, y, z)` are local coordinates inside the chunk.
pub open spec fn in_chunk(x: int, y: int, z: int) -> bool {
    0 <= x < CHUNK_SIZE && 0 <= y < CHUNK_SIZE && 0 <= z < CHUNK_SIZE
}

/// Whether the neighbor cell is clear: a missing neighbor chunk signifies
/// "no chunk generated there yet" and counts as clear, so boundary faces
/// against absent neighbors are always exposed.
pub open spec fn spec_neighbor_clear(c: Option<Chunk>, x: int, y: int, z: int) -> bool {
    match c {
        Some(chunk) => chunk.spec_voxel(x, y, z) == AIR,
        None => true,
    }
}

/// Whether the face of cell `(x, y, z)` in direction `d` is exposed: the
/// adjacent cell — in the same chunk, or the facing boundary cell of the
/// neighbor chunk when the cell sits on the chunk boundary — is air.
pub open spec fn face_exposed(s: VorldSlice, x: int, y: int, z: int, d: Direction) -> bool {
    match d {
        Direction::Forward => if z == CHUNK_SIZE - 1 {
            spec_neighbor_clear(s.forward_chunk, x, y, 0)
        } else {
            s.chunk.spec_voxel(x, y, z + 1) == AIR
        },
        Direction::Back => if z == 0 {
            spec_neighbor_clear(s.back_chunk, x, y, CHUNK_SIZE - 1)
        } else {
            s.chunk.spec_voxel(x, y, z - 1) == AIR
        },
        Direction::Up => if y == CHUNK_SIZE - 1 {
            spec_neighbor_clear(s.up_chunk, x, 0, z)
        } else {
            s.chunk.spec_voxel(x, y + 1, z) == AIR
        },
        Direction::Down => if y == 0 {
            spec_neighbor_clear(s.down_chunk, x, CHUNK_SIZE - 1, z)
        } else {
            s.chunk.spec_voxel(x, y - 1, z) == AIR
        },
        Direction::Right => if x == CHUNK_SIZE - 1 {
            spec_neighbor_clear(s.right_chunk, 0, y, z)
        } else {
            s.chunk.spec_voxel(x + 1, y, z) == AIR
        },
        Direction::Left => if x == 0 {
            spec_neighbor_clear(s.left_chunk, CHUNK_SIZE - 1, y, z)
        } else {
            s.chunk.spec_voxel(x - 1, y, z) == AIR
        },
    }
}

/// Whether the mesher emits the face of cell `(x, y, z)` in direction `d`:
/// the cell is in the chunk, solid, and the face is exposed.
pub open spec fn face_emitted(s: VorldSlice, x: int, y: int, z: int, d: Direction) -> bool {
    in_chunk(x, y, z) && s.chunk.spec_voxel(x, y, z) != AIR && face_exposed(s, x, y, z, d)
}

/// Scan position of a face in the mesher's cell-by-cell, direction-by-
/// direction sweep; distinct faces have distinct scan positions.
pub open spec fn face_order_of(x: int, y: int, z: int, d: Direction) -> int {
    6 * spec_voxel_index(x, y, z) + d.spec_index()
}

/// All face placements of one tile id, in scan order.
pub struct TileFaces {
    /// The tile id every face of this bucket maps to.
    pub tile: u32,
    /// The faces of this tile, in scan order.
    pub faces: Vec<FaceRequest>,
}

/// No two buckets share a tile id.
pub open spec fn distinct_tiles(bs: Seq<TileFaces>) -> bool {
    forall|k1: int, k2: int| 0 <= k1 < k2 < bs.len()
        ==> (#[trigger] bs[k1].tile) != (#[trigger] bs[k2].tile)
}

/// Face `f` appears somewhere in the buckets.
pub open spec fn face_present(bs: Seq<TileFaces>, f: FaceRequest) -> bool {
    exists|k: int, j: int|
        0 <= k < bs.len() && 0 <= j < bs[k].faces@.len() && (#[trigger] bs[k].faces@[j]) == f
}

/// Every bucketed face is an emitted face of the slice whose tile id, under
/// the lookup table, is its bucket's tile id.
pub open spec fn buckets_sound(bs: Seq<TileFaces>, s: VorldSlice, cfg: VoxelConfig) -> bool {
    forall|k: int, j: int| 0 <= k < bs.len() && 0 <= j < bs[k].faces@.len() ==> {
        let f = #[trigger] bs[k].faces@[j];
        face_emitted(s, f.1.0 as int, f.1.1 as int, f.1.2 as int, f.0)
            && cfg.spec_tile(s.chunk.spec_voxel(f.1.0 as int, f.1.1 as int, f.1.2 as int), f.0)
                == bs[k].tile
    }
}

/// No face appears twice in one bucket.
pub open spec fn buckets_faces_distinct(bs: Seq<TileFaces>) -> bool {
    forall|k: int, j1: int, j2: int|
        0 <= k < bs.len() && 0 <= j1 < j2 < bs[k].faces@.len()
            ==> (#[trigger] bs[k].faces@[j1]) != (#[trigger] bs[k].faces@[j2])
}

/// Every bucketed face lies strictly before scan position `bound`.
pub open spec fn faces_ordered_below(bs: Seq<TileFaces>, bound: int) -> bool {
    forall|k: int, j: int| 0 <= k < bs.len() && 0 <= j < bs[k].faces@.len() ==> {
        let f = #[trigger] bs[k].faces@[j];
        face_order_of(f.1.0 as int, f.1.1 as int, f.1.2 as int, f.0) < bound
    }
}

/// No bucket holds more faces than scan positions passed.
pub open spec fn faces_len_capped(bs: Seq<TileFaces>, bound: int) -> bool {
    forall|k: int| 0 <= k < bs.len() ==> (#[trigger] bs[k].faces@).len() <= bound
}

/// No bucket is empty.
pub open spec fn buckets_nonempty(bs: Seq<TileFaces>) -> bool {
    forall|k: int| 0 <= k < bs.len() ==> (#[trigger] bs[k].faces@).len() >= 1
}

/// Every emitted face up to scan position `bound` appears in the buckets.
pub open spec fn complete_below(bs: Seq<TileFaces>, s: VorldSlice, bound: int) -> bool {
    forall|x: int, y: int, z: int, d: Direction|
        #[trigger] face_emitted(s, x, y, z, d) && face_order_of(x, y, z, d) < bound
            ==> face_present(bs, (d, (x as usize, y as usize, z as usize)))
}

/// Every emitted face of the slice appears in the buckets.
pub open spec fn buckets_complete(bs: Seq<TileFaces>, s: VorldSlice) -> bool {
    forall|x: int, y: int, z: int, d: Direction|
        #[trigger] face_emitted(s, x, y, z, d)
            ==> face_present(bs, (d, (x as usize, y as usize, z as usize)))
}

/// Distinct in-chunk faces occupy distinct scan positions.
pub proof fn lemma_face_order_injective(x1: int, y1: int, z1: int, d1: Direction,
    x2: int, y2: int, z2: int, d2: Direction)
    requires
        in_chunk(x1, y1, z1),
        in_chunk(x2, y2, z2),
        face_order_of(x1, y1, z1, d1) == face_order_of(x2, y2, z2, d2),
    ensures
        x1 == x2 && y1 == y2 && z1 == z2 && d1 == d2,
{
    assert(0 <= d1.spec_index() < 6);
    assert(0 <= d2.spec_index() < 6);
    assert(spec_voxel_index(x1, y1, z1) == spec_voxel_index(x2, y2, z2));
    assert(d1.spec_index() == d2.spec_index());
    if !(x1 == x2 && y1 == y2 && z1 == z2) {
        lemma_voxel_index_injective(x1, y1, z1, x2, y2, z2);
    }
    assert(d1 == d2);
}

/// An indexed triangle mesh with parallel vertex attribute arrays. Four
/// vertices and six triangle-list indices are appended per face quad.
#[derive(Clone, Debug)]
pub struct Mesh {
    /// Corner positions, local to the chunk, in `[0, CHUNK_SIZE]`.
    pub positions: Vec<(u8, u8, u8)>,
    /// Unit face normals, one per vertex.
    pub normals: Vec<(i8, i8, i8)>,
    /// Texture coordinates, each component 0 or 1.
    pub uvs: Vec<(u8, u8)>,
    /// Triangle list: two triangles per quad, referencing this mesh's
    /// vertices only.
    pub indices: Vec<u32>,
}

/// Corner offset (each component 0 or 1) of vertex `k` of a face quad in
/// direction `d`, in a fixed counter-clockwise winding seen from outside.
pub open spec fn face_corner(d: Direction, k: int) -> (int, int, int) {
    match d {
        Direction::Forward => if k == 0 { (0, 0, 1) } else if k == 1 { (1, 0, 1) }
            else if k == 2 { (1, 1, 1) } else { (0, 1, 1) },
        Direction::Back => if k == 0 { (0, 0, 0) } else if k == 1 { (0, 1, 0) }
            else if k == 2 { (1, 1, 0) } else { (1, 0, 0) },
        Direction::Up => if k == 0 { (0, 1, 0) } else if k == 1 { (0, 1, 1) }
            else if k == 2 { (1, 1, 1) } else { (1, 1, 0) },
        Direction::Down => if k == 0 { (0, 0, 0) } else if k == 1 { (1, 0, 0) }
            else if k == 2 { (1, 0, 1) } else { (0, 0, 1) },
        Direction::Right => if k == 0 { (1, 0, 0) } else if k == 1 { (1, 1, 0) }
            else if k == 2 { (1, 1, 1) } else { (1, 0, 1) },
        Direction::Left => if k == 0 { (0, 0, 0) } else if k == 1 { (0, 0, 1) }
            else if k == 2 { (0, 1, 1) } else { (0, 1, 0) },
    }
}

/// Texture coordinates of vertex `k` of a face quad in direction `d`.
pub open spec fn face_uv(d: Direction, k: int) -> (int, int) {
    match d {
        Direction::Forward => if k == 0 { (0, 1) } else if k == 1 { (1, 1) }
            else if k == 2 { (1, 0) } else { (0, 0) },
        Direction::Back => if k == 0 { (1, 1) } else if k == 1 { (1, 0) }
            else if k == 2 { (0, 0) } else { (0, 1) },
        Direction::Up => if k == 0 { (0, 0) } else if k == 1 { (0, 1) }
            else if k == 2 { (1, 1) } else { (1, 0) },
        Direction::Down => if k == 0 { (1, 0) } else if k == 1 { (0, 0) }
            else if k == 2 { (0, 1) } else { (1, 1) },
        Direction::Right => if k == 0 { (1, 1) } else if k == 1 { (1, 0) }
            else if k == 2 { (0, 0) } else { (0, 1) },
        Direction::Left => if k == 0 { (0, 1) } else if k == 1 { (1, 1) }
            else if k == 2 { (1, 0) } else { (0, 0) },
    }
}

/// Outward unit normal of a face in direction `d`.
pub open spec fn face_normal(d: Direction) -> (i8, i8, i8) {
    match d {
        Direction::Forward => (0i8, 0i8, 1i8),
        Direction::Back => (0i8, 0i8, -1i8),
        Direction::Up => (0i8, 1i8, 0i8),
        Direction::Down => (0i8, -1i8, 0i8),
        Direction::Right => (1i8, 0i8, 0i8),
        Direction::Left => (-1i8, 0i8, 0i8),
    }
}

/// Position of vertex `k` of the quad for the face of the cell at local
/// coordinates `(x, y, z)` in direction `d`.
pub open spec fn face_position(d: Direction, k: int, x: int, y: int, z: int) -> (u8, u8, u8) {
    ((x + face_corner(d, k).0) as u8, (y + face_corner(d, k).1) as u8,
        (z + face_corner(d, k).2) as u8)
}

/// Texture coordinates of vertex `k` of a face quad, as stored.
pub open spec fn face_uv_stored(d: Direction, k: int) -> (u8, u8) {
    (face_uv(d, k).0 as u8, face_uv(d, k).1 as u8)
}

impl Mesh {
    /// Number of face quads in the mesh.
    pub open spec fn quad_count(self) -> int {
        self.indices@.len() as int / 6
    }

    /// The two triangles of quad `q` reference exactly that quad's four
    /// vertices, in the fixed pattern 0-1-2, 0-2-3.
    pub open spec fn quad_indices_ok(self, q: int) -> bool {
        &&& self.indices@[6 * q] as int == 4 * q
        &&& self.indices@[6 * q + 1] as int == 4 * q + 1
        &&& self.indices@[6 * q + 2] as int == 4 * q + 2
        &&& self.indices@[6 * q + 3] as int == 4 * q
        &&& self.indices@[6 * q + 4] as int == 4 * q + 2
        &&& self.indices@[6 * q + 5] as int == 4 * q + 3
    }

    /// The attribute arrays are parallel, four vertices and six indices per
    /// quad, and every quad's indices follow the fixed pattern.
    pub open spec fn wf(self) -> bool {
        &&& self.positions@.len() == 4 * self.quad_count()
        &&& self.normals@.len() == 4 * self.quad_count()
        &&& self.uvs@.len() == 4 * self.quad_count()
        &&& self.indices@.len() == 6 * self.quad_count()
        &&& forall|q: int| 0 <= q < self.quad_count() ==> self.quad_indices_ok(q)
    }

    /// Quad `q` is the face quad of the cell at `(x, y, z)` in direction
    /// `d`: its four vertices carry that face's positions, normals and
    /// texture coordinates.
    pub open spec fn quad_is_face(self, q: int, d: Direction, x: int, y: int, z: int) -> bool {
        &&& self.positions@[4 * q] == face_position(d, 0, x, y, z)
        &&& self.positions@[4 * q + 1] == face_position(d, 1, x, y, z)
        &&& self.positions@[4 * q + 2] == face_position(d, 2, x, y, z)
        &&& self.positions@[4 * q + 3] == face_position(d, 3, x, y, z)
        &&& self.uvs@[4 * q] == face_uv_stored(d, 0)
        &&& self.uvs@[4 * q + 1] == face_uv_stored(d, 1)
        &&& self.uvs@[4 * q + 2] == face_uv_stored(d, 2)
        &&& self.uvs@[4 * q + 3] == face_uv_stored(d, 3)
        &&& self.normals@[4 * q] == face_normal(d)
        &&& self.normals@[4 * q + 1] == face_normal(d)
        &&& self.normals@[4 * q + 2] == face_normal(d)
        &&& self.normals@[4 * q + 3] == face_normal(d)
    }

    /// An empty mesh.
    pub fn new() -> (m: Mesh)
        ensures
            m.wf(),
            m.quad_count() == 0,
    {
        Mesh { positions: Vec::new(), normals: Vec::new(), uvs: Vec::new(), indices: Vec::new() }
    }

    /// Appends the quad of the face of cell `(x, y, z)` in direction `d`:
    /// four vertices with the direction's fixed corner, normal and texture
    /// layout, offset by the cell position, then six indices referencing the
    /// new vertices as two triangles.
    pub fn push_face(&mut self, d: Direction, x: usize, y: usize, z: usize)
        requires
            old(self).wf(),
            x < CHUNK_SIZE,
            y < CHUNK_SIZE,
            z < CHUNK_SIZE,
            old(self).quad_count() < 0x1000000,
        ensures
            final(self).wf(),
            final(self).quad_count() == old(self).quad_count() + 1,
            final(self).quad_is_face(old(self).quad_count(), d, x as int, y as int, z as int),
            final(self).positions@.len() == old(self).positions@.len() + 4,
            forall|j: int| 0 <= j < old(self).positions@.len()
                ==> final(self).positions@[j] == old(self).positions@[j],
            forall|j: int| 0 <= j < old(self).normals@.len()
                ==> final(self).normals@[j] == old(self).normals@[j],
            forall|j: int| 0 <= j < old(self).uvs@.len()
                ==> final(self).uvs@[j] == old(self).uvs@[j],
            forall|j: int| 0 <= j < old(self).indices@.len()
                ==> final(self).indices@[j] == old(self).indices@[j],
    {
        let xb = x as u8;
        let yb = y as u8;
        let zb = z as u8;
        match d {
            Direction::Forward => {
                self.positions.push((xb, yb, zb + 1));
                self.positions.push((xb + 1, yb, zb + 1));
                self.positions.push((xb + 1, yb + 1, zb + 1));
                self.positions.push((xb, yb + 1, zb + 1));
                self.uvs.push((0, 1));
                self.uvs.push((1, 1));
                self.uvs.push((1, 0));
                self.uvs.push((0, 0));
            },
            Direction::Back => {
                self.positions.push((xb, yb, zb));
                self.positions.push((xb, yb + 1, zb));
                self.positions.push((xb + 1, yb + 1, zb));
                self.positions.push((xb + 1, yb, zb));
                self.uvs.push((1, 1));
                self.uvs.push((1, 0));
                self.uvs.push((0, 0));
                self.uvs.push((0, 1));
            },
            Direction::Up => {
                self.positions.push((xb, yb + 1, zb));
                self.positions.push((xb, yb + 1, zb + 1));
                self.positions.push((xb + 1, yb + 1, zb + 1));
                self.positions.push((xb + 1, yb + 1, zb));
                self.uvs.push((0, 0));
                self.uvs.push((0, 1));
                self.uvs.push((1, 1));
                self.uvs.push((1, 0));
            },
            Direction::Down => {
                self.positions.push((xb, yb, zb));
                self.positions.push((xb + 1, yb, zb));
                self.positions.push((xb + 1, yb, zb + 1));
                self.positions.push((xb, yb, zb + 1));
                self.uvs.push((1, 0));
                self.uvs.push((0, 0));
                self.uvs.push((0, 1));
                self.uvs.push((1, 1));
            },
            Direction::Right => {
                self.positions.push((xb + 1, yb, zb));
                self.positions.push((xb + 1, yb + 1, zb));
                self.positions.push((xb + 1, yb + 1, zb + 1));
                self.positions.push((xb + 1, yb, zb + 1));
                self.uvs.push((1, 1));
                self.uvs.push((1, 0));
                self.uvs.push((0, 0));
                self.uvs.push((0, 1));
            },
            Direction::Left => {
                self.positions.push((xb, yb, zb));
                self.positions.push((xb, yb, zb + 1));
                self.positions.push((xb, yb + 1, zb + 1));
                self.positions.push((xb, yb + 1, zb));
                self.uvs.push((0, 1));
                self.uvs.push((1, 1));
                self.uvs.push((1, 0));
                self.uvs.push((0, 0));
            },
        }
        let n = self.normals.len();
        let normal = match d {
            Direction::Forward => (0i8, 0i8, 1i8),
            Direction::Back => (0i8, 0i8, -1i8),
            Direction::Up => (0i8, 1i8, 0i8),
            Direction::Down => (0i8, -1i8, 0i8),
            Direction::Right => (1i8, 0i8, 0i8),
            Direction::Left => (-1i8, 0i8, 0i8),
        };
        self.normals.push(normal);
        self.normals.push(normal);
        self.normals.push(normal);
        self.normals.push(normal);
        let base = n as u32;
        self.indices.push(base);
        self.indices.push(base + 1);
        self.indices.push(base + 2);
        self.indices.push(base);
        self.indices.push(base + 2);
        self.indices.push(base + 3);
        proof {
            let q0 = old(self).quad_count();
            assert(self.quad_count() == q0 + 1);
            assert forall|q: int| 0 <= q < self.quad_count()
                implies self.quad_indices_ok(q) by {
                if q < q0 {
                    assert(old(self).quad_indices_ok(q));
                }
            }
        }
    }

    /// Every triangle index in a well-formed mesh references a vertex of
    /// this same mesh.
    pub proof fn lemma_indices_in_bounds(self)
        requires
            self.wf(),
        ensures
            forall|n: int| 0 <= n < self.indices@.len()
                ==> ((#[trigger] self.indices@[n]) as int) < self.positions@.len(),
    {
        assert forall|n: int| 0 <= n < self.indices@.len()
            implies ((#[trigger] self.indices@[n]) as int) < self.positions@.len() by {
            let q = n / 6;
            assert(self.quad_indices_ok(q));
            assert(6 * q <= n < 6 * q + 6);
        }
    }
}

/// Whether the cell `(x, y, z)` of an optional neighbor chunk is clear; a
/// missing chunk is treated as clear.
pub fn is_adjacent_block_clear(chunk_option: &Option<Chunk>, x: usize, y: usize, z: usize)
    -> (r: bool)
    requires
        crate::world::option_chunk_wf(*chunk_option),
        x < CHUNK_SIZE,
        y < CHUNK_SIZE,
        z < CHUNK_SIZE,
    ensures
        r == spec_neighbor_clear(*chunk_option, x as int, y as int, z as int),
{
    match chunk_option {
        Some(chunk) => chunk.get_voxel(x, y, z) == AIR,
        None => true,
    }
}

/// Whether the face of cell `(x, y, z)` in direction `d` is exposed in the
/// slice.
pub fn is_face_exposed(slice: &VorldSlice, x: usize, y: usize, z: usize, d: Direction)
    -> (r: bool)
    requires
        slice.wf(),
        x < CHUNK_SIZE,
        y < CHUNK_SIZE,
        z < CHUNK_SIZE,
    ensures
        r == face_exposed(*slice, x as int, y as int, z as int, d),
{
    match d {
        Direction::Forward => if z == CHUNK_SIZE - 1 {
            is_adjacent_block_clear(&slice.forward_chunk, x, y, 0)
        } else {
            slice.chunk.get_voxel(x, y, z + 1) == AIR
        },
        Direction::Back => if z == 0 {
            is_adjacent_block_clear(&slice.back_chunk, x, y, CHUNK_SIZE - 1)
        } else {
            slice.chunk.get_voxel(x, y, z - 1) == AIR
        },
        Direction::Up => if y == CHUNK_SIZE - 1 {
            is_adjacent_block_clear(&slice.up_chunk, x, 0, z)
        } else {
            slice.chunk.get_voxel(x, y + 1, z) == AIR
        },
        Direction::Down => if y == 0 {
            is_adjacent_block_clear(&slice.down_chunk, x, CHUNK_SIZE - 1, z)
        } else {
            slice.chunk.get_voxel(x, y - 1, z) == AIR
        },
        Direction::Right => if x == CHUNK_SIZE - 1 {
            is_adjacent_block_clear(&slice.right_chunk, 0, y, z)
        } else {
            slice.chunk.get_voxel(x + 1, y, z) == AIR
        },
        Direction::Left => if x == 0 {
            is_adjacent_block_clear(&slice.left_chunk, CHUNK_SIZE - 1, y, z)
        } else {
            slice.chunk.get_voxel(x - 1, y, z) == AIR
        },
    }
}

/// Appends `face` to the bucket of `tile`, creating the bucket if the tile
/// id has none yet; returns the bucket's position. Every existing bucket
/// keeps its tile and position, and every existing face its place.
fn request_tile(tile_requests: &mut Vec<TileFaces>, tile: u32, face: FaceRequest) -> (k: usize)
    requires
        distinct_tiles(old(tile_requests)@),
    ensures
        distinct_tiles(final(tile_requests)@),
        k < final(tile_requests)@.len(),
        final(tile_requests)@.len() >= old(tile_requests)@.len(),
        final(tile_requests)@[k as int].tile == tile,
        forall|k2: int| 0 <= k2 < old(tile_requests)@.len()
            ==> (#[trigger] final(tile_requests)@[k2]).tile == old(tile_requests)@[k2].tile,
        forall|k2: int| 0 <= k2 < old(tile_requests)@.len() && k2 != k
            ==> (#[trigger] final(tile_requests)@[k2]).faces@ == old(tile_requests)@[k2].faces@,
        if (k as int) < old(tile_requests)@.len() {
            final(tile_requests)@.len() == old(tile_requests)@.len()
                && final(tile_requests)@[k as int].faces@
                    == old(tile_requests)@[k as int].faces@.push(face)
        } else {
            final(tile_requests)@.len() == old(tile_requests)@.len() + 1
                && k as int == old(tile_requests)@.len()
                && final(tile_requests)@[k as int].faces@ == seq![face]
        },
{
    let n = tile_requests.len();
    for k in 0..n
        invariant
            n == tile_requests@.len(),
            tile_requests@ == old(tile_requests)@,
            distinct_tiles(tile_requests@),
            forall|k2: int| 0 <= k2 < k
                ==> (#[trigger] tile_requests@[k2]).tile != tile,
    {
        if tile_requests[k].tile == tile {
            tile_requests[k].faces.push(face);
            proof {
                assert(tile_requests@ =~= old(tile_requests)@.update(k as int,
                    tile_requests@[k as int]));
                assert(tile_requests@[k as int].tile == old(tile_requests)@[k as int].tile);
                assert forall|k1: int, k2: int| 0 <= k1 < k2 < tile_requests@.len()
                    implies (#[trigger] tile_requests@[k1].tile)
                        != (#[trigger] tile_requests@[k2].tile) by {
                    assert(old(tile_requests)@[k1].tile != old(tile_requests)@[k2].tile);
                }
            }
            return k;
        }
    }
    tile_requests.push(TileFaces { tile, faces: vec![face] });
    proof {
        assert(tile_requests@[n as int].faces@ =~= seq![face]);
        assert forall|k1: int, k2: int| 0 <= k1 < k2 < tile_requests@.len()
            implies (#[trigger] tile_requests@[k1].tile) != (#[trigger] tile_requests@[k2].tile)
            by {
            if k2 == n as int {
                assert(tile_requests@[k1].tile != tile);
            }
        }
    }
    n
}

/// Checks one direction of one solid cell and, when the face is exposed,
/// records it under its tile id. The scan bound advances by one position;
/// every previously recorded face keeps its place.
fn emit_cell_face(tile_requests: &mut Vec<TileFaces>, slice: &VorldSlice, config: &VoxelConfig,
    x: usize, y: usize, z: usize, d: Direction)
    requires
        slice.wf(),
        config.wf(),
        x < CHUNK_SIZE,
        y < CHUNK_SIZE,
        z < CHUNK_SIZE,
        slice.chunk.spec_voxel(x as int, y as int, z as int) != AIR,
        distinct_tiles(old(tile_requests)@),
        buckets_sound(old(tile_requests)@, *slice, *config),
        buckets_faces_distinct(old(tile_requests)@),
        buckets_nonempty(old(tile_requests)@),
        faces_ordered_below(old(tile_requests)@, face_order_of(x as int, y as int, z as int, d)),
        faces_len_capped(old(tile_requests)@, face_order_of(x as int, y as int, z as int, d)),
    ensures
        distinct_tiles(final(tile_requests)@),
        buckets_sound(final(tile_requests)@, *slice, *config),
        buckets_faces_distinct(final(tile_requests)@),
        buckets_nonempty(final(tile_requests)@),
        faces_ordered_below(final(tile_requests)@,
            face_order_of(x as int, y as int, z as int, d) + 1),
        faces_len_capped(final(tile_requests)@,
            face_order_of(x as int, y as int, z as int, d) + 1),
        face_emitted(*slice, x as int, y as int, z as int, d)
            ==> face_present(final(tile_requests)@, (d, (x, y, z))),
        forall|f: FaceRequest| face_present(old(tile_requests)@, f)
            ==> face_present(final(tile_requests)@, f),
{
    let ghost order = face_order_of(x as int, y as int, z as int, d);
    if is_face_exposed(slice, x, y, z, d) {
        let voxel = slice.chunk.get_voxel(x, y, z);
        let tile = config.tile_for(voxel, d);
        let ghost pre = tile_requests@;
        let face = (d, (x, y, z));
        let k = request_tile(tile_requests, tile, face);
        proof {
            let bs = tile_requests@;
            let kk = k as int;
            let jj = bs[kk].faces@.len() - 1;
            assert(bs[kk].faces@[jj] == face);
            assert(face_present(bs, face));
            assert forall|f: FaceRequest| face_present(pre, f)
                implies face_present(bs, f) by {
                let (k2, j2): (int, int) = choose|k2: int, j2: int|
                    0 <= k2 < pre.len() && 0 <= j2 < pre[k2].faces@.len()
                        && (#[trigger] pre[k2].faces@[j2]) == f;
                assert(bs[k2].faces@[j2] == f);
            }
            assert forall|k2: int, j1: int, j2: int|
                0 <= k2 < bs.len() && 0 <= j1 < j2 < bs[k2].faces@.len()
                    implies (#[trigger] bs[k2].faces@[j1]) != (#[trigger] bs[k2].faces@[j2])
                by {
                if k2 == kk && j2 == jj && kk < pre.len() {
                    let g = bs[k2].faces@[j1];
                    assert(face_order_of(g.1.0 as int, g.1.1 as int, g.1.2 as int, g.0) < order);
                }
            }
        }
    }
}

/// One scan step of the completeness argument: after the face at scan
/// position `face_order_of(x, y, z, d)` has been recorded (when emitted) and
/// all earlier records kept, completeness extends one position further.
proof fn lemma_complete_step(pre: Seq<TileFaces>, post: Seq<TileFaces>, s: VorldSlice,
    x: int, y: int, z: int, d: Direction)
    requires
        in_chunk(x, y, z),
        complete_below(pre, s, face_order_of(x, y, z, d)),
        face_emitted(s, x, y, z, d)
            ==> face_present(post, (d, (x as usize, y as usize, z as usize))),
        forall|f: FaceRequest| face_present(pre, f) ==> face_present(post, f),
    ensures
        complete_below(post, s, face_order_of(x, y, z, d) + 1),
{
    let order = face_order_of(x, y, z, d);
    assert forall|x2: int, y2: int, z2: int, d2: Direction|
        #[trigger] face_emitted(s, x2, y2, z2, d2) && face_order_of(x2, y2, z2, d2) < order + 1
            implies face_present(post, (d2, (x2 as usize, y2 as usize, z2 as usize))) by {
        if face_order_of(x2, y2, z2, d2) == order {
            lemma_face_order_injective(x2, y2, z2, d2, x, y, z, d);
        } else {
            assert(face_present(pre, (d2, (x2 as usize, y2 as usize, z2 as usize))));
        }
    }
}

/// Collects every exposed face of every solid cell of the slice's chunk,
/// bucketed by tile id: the buckets carry distinct tile ids, hold exactly
/// the emitted faces — each exactly once — and no bucket is empty.
pub fn collect_face_requests(slice: &VorldSlice, config: &VoxelConfig) -> (r: Vec<TileFaces>)
    requires
        slice.wf(),
        config.wf(),
    ensures
        distinct_tiles(r@),
        buckets_sound(r@, *slice, *config),
        buckets_faces_distinct(r@),
        buckets_nonempty(r@),
        buckets_complete(r@, *slice),
        faces_len_capped(r@, 6 * CHUNK_ARRAY_SIZE),
{
    let mut tile_requests: Vec<TileFaces> = Vec::new();
    for i in 0..CHUNK_ARRAY_SIZE
        invariant
            slice.wf(),
            config.wf(),
            distinct_tiles(tile_requests@),
            buckets_sound(tile_requests@, *slice, *config),
            buckets_faces_distinct(tile_requests@),
            buckets_nonempty(tile_requests@),
            faces_ordered_below(tile_requests@, 6 * i),
            faces_len_capped(tile_requests@, 6 * i),
            complete_below(tile_requests@, *slice, 6 * i),
    {
        let p: (usize, usize, usize) = Chunk::get_block_position(i);
        let x: usize = p.0;
        let y: usize = p.1;
        let z: usize = p.2;
        proof {
            assert(spec_voxel_index(x as int, y as int, z as int) == i);
        }
        let voxel = slice.chunk.get_voxel(x, y, z);
        if voxel != AIR {
            let ghost b0 = tile_requests@;
            emit_cell_face(&mut tile_requests, slice, config, x, y, z, Direction::Forward);
            proof {
                lemma_complete_step(b0, tile_requests@, *slice, x as int, y as int, z as int,
                    Direction::Forward);
            }
            let ghost b1 = tile_requests@;
            emit_cell_face(&mut tile_requests, slice, config, x, y, z, Direction::Back);
            proof {
                lemma_complete_step(b1, tile_requests@, *slice, x as int, y as int, z as int,
                    Direction::Back);
            }
            let ghost b2 = tile_requests@;
            emit_cell_face(&mut tile_requests, slice, config, x, y, z, Direction::Up);
            proof {
                lemma_complete_step(b2, tile_requests@, *slice, x as int, y as int, z as int,
                    Direction::Up);
            }
            let ghost b3 = tile_requests@;
            emit_cell_face(&mut tile_requests, slice, config, x, y, z, Direction::Down);
            proof {
                lemma_complete_step(b3, tile_requests@, *slice, x as int, y as int, z as int,
                    Direction::Down);
            }
            let ghost b4 = tile_requests@;
            emit_cell_face(&mut tile_requests, slice, config, x, y, z, Direction::Right);
            proof {
                lemma_complete_step(b4, tile_requests@, *slice, x as int, y as int, z as int,
                    Direction::Right);
            }
            let ghost b5 = tile_requests@;
            emit_cell_face(&mut tile_requests, slice, config, x, y, z, Direction::Left);
            proof {
                lemma_complete_step(b5, tile_requests@, *slice, x as int, y as int, z as int,
                    Direction::Left);
            }
        } else {
            proof {
                assert forall|x2: int, y2: int, z2: int, d2: Direction|
                    #[trigger] face_emitted(*slice, x2, y2, z2, d2)
                        && face_order_of(x2, y2, z2, d2) < 6 * (i + 1)
                        implies face_present(tile_requests@,
                            (d2, (x2 as usize, y2 as usize, z2 as usize))) by {
                    if face_order_of(x2, y2, z2, d2) >= 6 * i {
                        assert(0 <= d2.spec_index() < 6);
                        assert(spec_voxel_index(x2, y2, z2) == i);
                        if !(x2 == x as int && y2 == y as int && z2 == z as int) {
                            lemma_voxel_index_injective(x2, y2, z2, x as int, y as int, z as int);
                        }
                        assert(slice.chunk.spec_voxel(x2, y2, z2) == AIR);
                        assert(false);
                    }
                }
            }
        }
    }
    proof {
        assert forall|x2: int, y2: int, z2: int, d2: Direction|
            #[trigger] face_emitted(*slice, x2, y2, z2, d2)
                implies face_present(tile_requests@,
                    (d2, (x2 as usize, y2 as usize, z2 as usize))) by {
            assert(0 <= d2.spec_index() < 6);
            assert(0 <= spec_voxel_index(x2, y2, z2) < CHUNK_ARRAY_SIZE);
            assert(face_order_of(x2, y2, z2, d2) < 6 * CHUNK_ARRAY_SIZE);
        }
    }
    tile_requests
}

/// Builds the mesh of one tile bucket: one quad per face, in order.
pub fn build_mesh(faces: &Vec<(Direction, (usize, usize, usize))>) -> (m: Mesh)
    requires
        faces@.len() <= 0x1000000,
        forall|j: int| 0 <= j < faces@.len()
            ==> (#[trigger] faces@[j]).1.0 < CHUNK_SIZE && faces@[j].1.1 < CHUNK_SIZE
                && faces@[j].1.2 < CHUNK_SIZE,
    ensures
        m.wf(),
        m.quad_count() == faces@.len(),
        forall|q: int| 0 <= q < faces@.len()
            ==> m.quad_is_face(q, (#[trigger] faces@[q]).0, faces@[q].1.0 as int,
                faces@[q].1.1 as int, faces@[q].1.2 as int),
{
    let mut m = Mesh::new();
    let n = faces.len();
    for j in 0..n
        invariant
            n == faces@.len(),
            n <= 0x1000000,
            forall|i: int| 0 <= i < faces@.len()
                ==> (#[trigger] faces@[i]).1.0 < CHUNK_SIZE && faces@[i].1.1 < CHUNK_SIZE
                    && faces@[i].1.2 < CHUNK_SIZE,
            m.wf(),
            m.quad_count() == j,
            forall|q: int| 0 <= q < j
                ==> m.quad_is_face(q, (#[trigger] faces@[q]).0, faces@[q].1.0 as int,
                    faces@[q].1.1 as int, faces@[q].1.2 as int),
    {
        let (d, (x, y, z)) = faces[j];
        m.push_face(d, x, y, z);
    }
    m
}

/// A quad's vertex data determines its face: the normal fixes the
/// direction, and the first corner position fixes the cell.
pub proof fn lemma_quad_face_determined(m: Mesh, q: int, d1: Direction, x1: int, y1: int,
    z1: int, d2: Direction, x2: int, y2: int, z2: int)
    requires
        in_chunk(x1, y1, z1),
        in_chunk(x2, y2, z2),
        m.quad_is_face(q, d1, x1, y1, z1),
        m.quad_is_face(q, d2, x2, y2, z2),
    ensures
        d1 == d2 && x1 == x2 && y1 == y2 && z1 == z2,
{
    assert(face_normal(d1) == face_normal(d2));
    assert(d1 == d2);
    assert(face_position(d1, 0, x1, y1, z1) == face_position(d1, 0, x2, y2, z2));
    assert((x1 + face_corner(d1, 0).0) as u8 == (x2 + face_corner(d1, 0).0) as u8);
    assert((y1 + face_corner(d1, 0).1) as u8 == (y2 + face_corner(d1, 0).1) as u8);
    assert((z1 + face_corner(d1, 0).2) as u8 == (z2 + face_corner(d1, 0).2) as u8);
}

/// Quad `q` of mesh `k` of the output is an emitted face of the slice whose
/// tile id, under the lookup table, is that mesh's tile id.
pub open spec fn quad_sound(r: Seq<(u32, Mesh)>, s: VorldSlice, cfg: VoxelConfig, k: int,
    q: int) -> bool {
    exists|x: int, y: int, z: int, d: Direction|
        face_emitted(s, x, y, z, d)
            && cfg.spec_tile(s.chunk.spec_voxel(x, y, z), d) == r[k].0
            && (#[trigger] r[k].1.quad_is_face(q, d, x, y, z))
}

/// Builds one mesh per distinct tile id, each holding one quad for every
/// exposed face of that tile: the tile ids are distinct, every quad is an
/// emitted face of its mesh's tile, every emitted face appears as a quad of
/// its tile's mesh, and no face appears as two quads.
pub fn build_chunk_meshes(slice: &VorldSlice, config: &VoxelConfig) -> (r: Vec<(u32, Mesh)>)
    requires
        slice.wf(),
        config.wf(),
    ensures
        forall|k1: int, k2: int| 0 <= k1 < k2 < r@.len()
            ==> (#[trigger] r@[k1].0) != (#[trigger] r@[k2].0),
        forall|k: int| 0 <= k < r@.len() ==> (#[trigger] r@[k].1).wf(),
        forall|k: int| 0 <= k < r@.len() ==> (#[trigger] r@[k].1).quad_count() >= 1,
        forall|k: int, q: int| 0 <= k < r@.len() && 0 <= q < r@[k].1.quad_count()
            ==> #[trigger] quad_sound(r@, *slice, *config, k, q),
        forall|x: int, y: int, z: int, d: Direction|
            #[trigger] face_emitted(*slice, x, y, z, d)
                ==> exists|k: int, q: int|
                    0 <= k < r@.len()
                        && r@[k].0 == config.spec_tile(slice.chunk.spec_voxel(x, y, z), d)
                        && 0 <= q < r@[k].1.quad_count()
                        && (#[trigger] r@[k].1.quad_is_face(q, d, x, y, z)),
        forall|k1: int, q1: int, k2: int, q2: int, x: int, y: int, z: int, d: Direction|
            0 <= k1 < r@.len() && 0 <= q1 < r@[k1].1.quad_count()
                && 0 <= k2 < r@.len() && 0 <= q2 < r@[k2].1.quad_count()
                && !(k1 == k2 && q1 == q2) && in_chunk(x, y, z)
                ==> !((#[trigger] r@[k1].1.quad_is_face(q1, d, x, y, z))
                    && (#[trigger] r@[k2].1.quad_is_face(q2, d, x, y, z))),
{
    let buckets = collect_face_requests(slice, config);
    let ghost bs = buckets@;
    let mut meshes: Vec<(u32, Mesh)> = Vec::new();
    let n = buckets.len();
    for k in 0..n
        invariant
            slice.wf(),
            config.wf(),
            bs == buckets@,
            n == bs.len(),
            buckets_sound(bs, *slice, *config),
            buckets_faces_distinct(bs),
            buckets_nonempty(bs),
            faces_len_capped(bs, 6 * CHUNK_ARRAY_SIZE),
            meshes@.len() == k,
            forall|k2: int| 0 <= k2 < k ==> (#[trigger] meshes@[k2]).0 == bs[k2].tile,
            forall|k2: int| 0 <= k2 < k ==> (#[trigger] meshes@[k2]).1.wf(),
            forall|k2: int| 0 <= k2 < k
                ==> (#[trigger] meshes@[k2]).1.quad_count() == bs[k2].faces@.len(),
            forall|k2: int, q: int| 0 <= k2 < k && 0 <= q < bs[k2].faces@.len()
                ==> (#[trigger] meshes@[k2]).1.quad_is_face(q,
                    (#[trigger] bs[k2].faces@[q]).0, bs[k2].faces@[q].1.0 as int,
                    bs[k2].faces@[q].1.1 as int, bs[k2].faces@[q].1.2 as int),
    {
        let tile = buckets[k].tile;
        proof {
            assert forall|j: int| 0 <= j < bs[k as int].faces@.len()
                implies (#[trigger] bs[k as int].faces@[j]).1.0 < CHUNK_SIZE
                    && bs[k as int].faces@[j].1.1 < CHUNK_SIZE
                    && bs[k as int].faces@[j].1.2 < CHUNK_SIZE by {
                let f = bs[k as int].faces@[j];
                assert(face_emitted(*slice, f.1.0 as int, f.1.1 as int, f.1.2 as int, f.0));
            }
        }
        let m = build_mesh(&buckets[k].faces);
        meshes.push((tile, m));
    }
    proof {
        let r = meshes@;
        assert forall|k: int, q: int| 0 <= k < r.len() && 0 <= q < r[k].1.quad_count()
            implies #[trigger] quad_sound(r, *slice, *config, k, q) by {
            let f = bs[k].faces@[q];
            let x = f.1.0 as int;
            let y = f.1.1 as int;
            let z = f.1.2 as int;
            let d = f.0;
            assert(face_emitted(*slice, x, y, z, d)
                && config.spec_tile(slice.chunk.spec_voxel(x, y, z), d) == r[k].0
                && r[k].1.quad_is_face(q, d, x, y, z));
        }
        assert forall|x: int, y: int, z: int, d: Direction|
            #[trigger] face_emitted(*slice, x, y, z, d)
                implies exists|k: int, q: int|
                    0 <= k < r.len()
                        && r[k].0 == config.spec_tile(slice.chunk.spec_voxel(x, y, z), d)
                        && 0 <= q < r[k].1.quad_count()
                        && (#[trigger] r[k].1.quad_is_face(q, d, x, y, z)) by {
            let f = (d, (x as usize, y as usize, z as usize));
            assert(face_present(bs, f));
            let (k, q): (int, int) = choose|k: int, q: int|
                0 <= k < bs.len() && 0 <= q < bs[k].faces@.len()
                    && (#[trigger] bs[k].faces@[q]) == f;
            assert(r[k].0 == config.spec_tile(slice.chunk.spec_voxel(x, y, z), d)
                && 0 <= q < r[k].1.quad_count() && r[k].1.quad_is_face(q, d, x, y, z));
        }
        assert forall|k1: int, q1: int, k2: int, q2: int, x: int, y: int, z: int, d: Direction|
            0 <= k1 < r.len() && 0 <= q1 < r[k1].1.quad_count()
                && 0 <= k2 < r.len() && 0 <= q2 < r[k2].1.quad_count()
                && !(k1 == k2 && q1 == q2) && in_chunk(x, y, z)
                implies !((#[trigger] r[k1].1.quad_is_face(q1, d, x, y, z))
                    && (#[trigger] r[k2].1.quad_is_face(q2, d, x, y, z))) by {
            if r[k1].1.quad_is_face(q1, d, x, y, z) && r[k2].1.quad_is_face(q2, d, x, y, z) {
                let f1 = bs[k1].faces@[q1];
                let f2 = bs[k2].faces@[q2];
                assert(face_emitted(*slice, f1.1.0 as int, f1.1.1 as int, f1.1.2 as int, f1.0));
                assert(face_emitted(*slice, f2.1.0 as int, f2.1.1 as int, f2.1.2 as int, f2.0));
                lemma_quad_face_determined(r[k1].1, q1, f1.0, f1.1.0 as int, f1.1.1 as int,
                    f1.1.2 as int, d, x, y, z);
                lemma_quad_face_determined(r[k2].1, q2, f2.0, f2.1.0 as int, f2.1.1 as int,
                    f2.1.2 as int, d, x, y, z);
                assert(f1 == f2);
                if k1 == k2 {
                    assert(false);
                } else {
                    assert(config.spec_tile(slice.chunk.spec_voxel(x, y, z), d) == bs[k1].tile);
                    assert(config.spec_tile(slice.chunk.spec_voxel(x, y, z), d) == bs[k2].tile);
                    assert(false);
                }
            }
        }
    }
    meshes
}

/// An exposed boundary face against a missing neighbor chunk: a solid cell
/// on the chunk boundary always emits the face toward an absent neighbor.
pub proof fn lemma_absent_neighbor_face_exposed(s: VorldSlice, x: int, y: int, z: int,
    d: Direction)
    requires
        in_chunk(x, y, z),
        match d {
            Direction::Forward => z == CHUNK_SIZE - 1 && s.forward_chunk is None,
            Direction::Back => z == 0 && s.back_chunk is None,
            Direction::Up => y == CHUNK_SIZE - 1 && s.up_chunk is None,
            Direction::Down => y == 0 && s.down_chunk is None,
            Direction::Right => x == CHUNK_SIZE - 1 && s.right_chunk is None,
            Direction::Left => x == 0 && s.left_chunk is None,
        },
    ensures
        face_exposed(s, x, y, z, d),
        s.chunk.spec_voxel(x, y, z) != AIR ==> face_emitted(s, x, y, z, d),
{
}

/// Face culling at a shared boundary inside the chunk. For the boundary
/// between a cell and its in-chunk neighbor in direction `d`: when both
/// cells are solid, neither side emits its facing quad; when exactly one is
/// solid, exactly that side emits, toward the other; an air cell never
/// emits. A shared face is thus never emitted twice, once from each side.
pub proof fn lemma_shared_face_emission(s: VorldSlice, x: int, y: int, z: int, d: Direction)
    requires
        in_chunk(x, y, z),
        in_chunk(x + d.spec_offset().0, y + d.spec_offset().1, z + d.spec_offset().2),
    ensures
        ({
            let nx = x + d.spec_offset().0;
            let ny = y + d.spec_offset().1;
            let nz = z + d.spec_offset().2;
            let cell_solid = s.chunk.spec_voxel(x, y, z) != AIR;
            let neighbor_solid = s.chunk.spec_voxel(nx, ny, nz) != AIR;
            &&& (cell_solid && neighbor_solid ==> !face_emitted(s, x, y, z, d)
                && !face_emitted(s, nx, ny, nz, d.spec_opposite()))
            &&& (cell_solid && !neighbor_solid ==> face_emitted(s, x, y, z, d)
                && !face_emitted(s, nx, ny, nz, d.spec_opposite()))
            &&& (!cell_solid && neighbor_solid ==> !face_emitted(s, x, y, z, d)
                && face_emitted(s, nx, ny, nz, d.spec_opposite()))
            &&& (!cell_solid ==> !face_emitted(s, x, y, z, d))
        }),
{
}

} // verus!
