//! Block ids and the block-face to tile lookup table.

use vstd::prelude::*;
use crate::direction::Direction;

verus! {

/// Number of distinct block ids (`u8` range).
pub const BLOCK_ID_COUNT: usize = 256;

/// Number of face directions per block.
pub const FACE_COUNT: usize = 6;

/// The named block kinds of the reference world. `Air` is the reserved empty
/// value.
#[derive(Clone, Copy, PartialEq, Eq, Structural, Debug)]
pub enum BlockIds {
    Air,
    Grass,
    Soil,
    Stone,
    StoneSlab,
    StoneBlocks,
    Wood,
    Planks,
    Debug,
    Rink,
}

impl BlockIds {
    /// The block id stored in chunks for this kind; `Air` is 0.
    pub open spec fn spec_id(self) -> u8 {
        match self {
            BlockIds::Air => 0,
            BlockIds::Grass => 1,
            BlockIds::Soil => 2,
            BlockIds::Stone => 3,
            BlockIds::StoneSlab => 4,
            BlockIds::StoneBlocks => 5,
            BlockIds::Wood => 6,
            BlockIds::Planks => 7,
            BlockIds::Debug => 8,
            BlockIds::Rink => 9,
        }
    }

    /// The block id stored in chunks for this kind.
    pub fn id(self) -> (r: u8)
        ensures
            r == self.spec_id(),
    {
        match self {
            BlockIds::Air => 0,
            BlockIds::Grass => 1,
            BlockIds::Soil => 2,
            BlockIds::Stone => 3,
            BlockIds::StoneSlab => 4,
            BlockIds::StoneBlocks => 5,
            BlockIds::Wood => 6,
            BlockIds::Planks => 7,
            BlockIds::Debug => 8,
            BlockIds::Rink => 9,
        }
    }
}

/// The face lookup table: a total function from block id and face direction
/// to tile id, stored densely with six entries per block id. Tile id 0 is a
/// valid tile, not a sentinel.
pub struct VoxelConfig {
    /// Row-major storage: entry for block `b`, direction `d` sits at
    /// `b * FACE_COUNT + d`.
    pub id_to_tile: Vec<u32>,
}

impl VoxelConfig {
    /// The table has exactly one entry per block id and direction.
    pub open spec fn wf(self) -> bool {
        self.id_to_tile@.len() == BLOCK_ID_COUNT * FACE_COUNT
    }

    /// Tile id of face `d` of block id `b`.
    pub open spec fn spec_tile(self, b: u8, d: Direction) -> u32 {
        self.id_to_tile@[b * FACE_COUNT + d.spec_index()]
    }

    /// A table mapping every face of every block id to tile 0.
    pub fn new() -> (c: VoxelConfig)
        ensures
            c.wf(),
            forall|b: u8, d: Direction| c.spec_tile(b, d) == 0u32,
    {
        let c = VoxelConfig { id_to_tile: vec![0u32; BLOCK_ID_COUNT * FACE_COUNT] };
        proof {
            assert forall|b: u8, d: Direction| c.spec_tile(b, d) == 0u32 by {
                assert(0 <= b * FACE_COUNT + d.spec_index() < BLOCK_ID_COUNT * FACE_COUNT);
            }
        }
        c
    }

    /// Tile id of face `d` of block id `b`.
    pub fn tile_for(&self, b: u8, d: Direction) -> (t: u32)
        requires
            self.wf(),
        ensures
            t == self.spec_tile(b, d),
    {
        let i = (b as usize) * FACE_COUNT + d.index();
        self.id_to_tile[i]
    }

    /// Sets the six tile ids of block id `b`, in table order: Forward, Back,
    /// Up, Down, Right, Left. Every other block's row is unchanged.
    pub fn set_tiles(&mut self, b: u8, forward: u32, back: u32, up: u32, down: u32, right: u32,
        left: u32)
        requires
            old(self).wf(),
        ensures
            final(self).wf(),
            final(self).spec_tile(b, Direction::Forward) == forward,
            final(self).spec_tile(b, Direction::Back) == back,
            final(self).spec_tile(b, Direction::Up) == up,
            final(self).spec_tile(b, Direction::Down) == down,
            final(self).spec_tile(b, Direction::Right) == right,
            final(self).spec_tile(b, Direction::Left) == left,
            forall|b2: u8, d: Direction| b2 != b
                ==> final(self).spec_tile(b2, d) == old(self).spec_tile(b2, d),
    {
        let base = (b as usize) * FACE_COUNT;
        self.id_to_tile.set(base, forward);
        self.id_to_tile.set(base + 1, back);
        self.id_to_tile.set(base + 2, up);
        self.id_to_tile.set(base + 3, down);
        self.id_to_tile.set(base + 4, right);
        self.id_to_tile.set(base + 5, left);
        proof {
            assert forall|b2: u8, d: Direction| b2 != b
                implies self.spec_tile(b2, d) == old(self).spec_tile(b2, d) by {
                assert(b2 * FACE_COUNT + d.spec_index() < BLOCK_ID_COUNT * FACE_COUNT);
                assert(b2 * FACE_COUNT + d.spec_index() < b * FACE_COUNT
                    || b2 * FACE_COUNT + d.spec_index() > b * FACE_COUNT + 5) by (nonlinear_arith)
                    requires b2 != b, 0 <= d.spec_index() < 6, FACE_COUNT == 6;
            }
        }
    }
}

/// The tile id the reference world assigns to face `d` of block id `b`:
/// grass has distinct top, bottom and side tiles; most stone and wood
/// kinds pair their top and bottom against their sides; every face of an
/// unknown block id maps to tile 0.
pub open spec fn spec_reference_tile(b: u8, d: Direction) -> u32 {
    if b == 1 {
        match d {
            Direction::Up => 0u32,
            Direction::Down => 2u32,
            _ => 1u32,
        }
    } else if b == 2 {
        2u32
    } else if b == 3 {
        3u32
    } else if b == 4 {
        match d {
            Direction::Up => 6u32,
            Direction::Down => 6u32,
            _ => 5u32,
        }
    } else if b == 5 {
        match d {
            Direction::Up => 5u32,
            Direction::Down => 5u32,
            _ => 4u32,
        }
    } else if b == 6 {
        match d {
            Direction::Up => 8u32,
            Direction::Down => 8u32,
            _ => 9u32,
        }
    } else if b == 7 {
        10u32
    } else if b == 8 {
        match d {
            Direction::Forward => 17u32,
            Direction::Back => 18u32,
            Direction::Up => 15u32,
            Direction::Down => 16u32,
            Direction::Right => 20u32,
            Direction::Left => 19u32,
        }
    } else if b == 9 {
        21u32
    } else {
        0u32
    }
}

/// The face lookup table of the reference world: grass, soil, stone and the
/// other authored block kinds, each with its six face tiles.
pub fn reference_config() -> (c: VoxelConfig)
    ensures
        c.wf(),
        forall|b: u8, d: Direction| c.spec_tile(b, d) == spec_reference_tile(b, d),
{
    let mut c = VoxelConfig::new();
    c.set_tiles(BlockIds::Grass.id(), 1, 1, 0, 2, 1, 1);
    c.set_tiles(BlockIds::Soil.id(), 2, 2, 2, 2, 2, 2);
    c.set_tiles(BlockIds::Stone.id(), 3, 3, 3, 3, 3, 3);
    c.set_tiles(BlockIds::StoneSlab.id(), 5, 5, 6, 6, 5, 5);
    c.set_tiles(BlockIds::StoneBlocks.id(), 4, 4, 5, 5, 4, 4);
    c.set_tiles(BlockIds::Wood.id(), 9, 9, 8, 8, 9, 9);
    c.set_tiles(BlockIds::Planks.id(), 10, 10, 10, 10, 10, 10);
    c.set_tiles(BlockIds::Debug.id(), 17, 18, 15, 16, 20, 19);
    c.set_tiles(BlockIds::Rink.id(), 21, 21, 21, 21, 21, 21);
    proof {
        assert forall|b: u8, d: Direction|
            c.spec_tile(b, d) == spec_reference_tile(b, d) by {
            if b >= 10 {
                assert(c.spec_tile(b, d) == 0u32);
            }
        }
    }
    c
}

} // verus!
