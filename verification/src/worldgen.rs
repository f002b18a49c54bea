//! Authoring of the reference worlds: a batch of voxel writes building the
//! flat test ground and the movement test course.

use vstd::prelude::*;
use crate::world::Vorld;
use crate::config::BlockIds;

verus! {

/// Writes `block` into every cell of the axis-aligned box of the given
/// width (+X), height (+Y) and depth (+Z) whose lowest corner is
/// `(x, y, z)`; every cell outside the box keeps its block id.
pub fn fill(world: &mut Vorld, block: u8, width: i32, height: i32, depth: i32, x: i32, y: i32,
    z: i32)
    requires
        old(world).wf(),
        0 <= width,
        0 <= height,
        0 <= depth,
        x + width <= i32::MAX,
        y + height <= i32::MAX,
        z + depth <= i32::MAX,
    ensures
        final(world).wf(),
        forall|a: int, b: int, c: int|
            x <= a < x + width && y <= b < y + height && z <= c < z + depth
                ==> final(world).spec_voxel(a, b, c) == block,
        forall|a: int, b: int, c: int|
            !(x <= a < x + width && y <= b < y + height && z <= c < z + depth)
                ==> final(world).spec_voxel(a, b, c) == old(world).spec_voxel(a, b, c),
{
    let mut j: i32 = 0;
    while j < height
        invariant
            world.wf(),
            0 <= j <= height,
            0 <= width,
            0 <= height,
            0 <= depth,
            x + width <= i32::MAX,
            y + height <= i32::MAX,
            z + depth <= i32::MAX,
            forall|a: int, b: int, c: int|
                x <= a < x + width && y <= b < y + j && z <= c < z + depth
                    ==> world.spec_voxel(a, b, c) == block,
            forall|a: int, b: int, c: int|
                !(x <= a < x + width && y <= b < y + height && z <= c < z + depth)
                    ==> world.spec_voxel(a, b, c) == old(world).spec_voxel(a, b, c),
        decreases height - j,
    {
        let mut k: i32 = 0;
        while k < depth
            invariant
                world.wf(),
                0 <= j < height,
                0 <= k <= depth,
                0 <= width,
                0 <= depth,
                x + width <= i32::MAX,
                y + height <= i32::MAX,
                z + depth <= i32::MAX,
                forall|a: int, b: int, c: int|
                    x <= a < x + width && y <= b < y + j && z <= c < z + depth
                        ==> world.spec_voxel(a, b, c) == block,
                forall|a: int, b: int, c: int|
                    x <= a < x + width && b == y + j && z <= c < z + k
                        ==> world.spec_voxel(a, b, c) == block,
                forall|a: int, b: int, c: int|
                    !(x <= a < x + width && y <= b < y + height && z <= c < z + depth)
                        ==> world.spec_voxel(a, b, c) == old(world).spec_voxel(a, b, c),
            decreases depth - k,
        {
            let mut i: i32 = 0;
            while i < width
                invariant
                    world.wf(),
                    0 <= j < height,
                    0 <= k < depth,
                    0 <= i <= width,
                    0 <= width,
                    x + width <= i32::MAX,
                    y + height <= i32::MAX,
                    z + depth <= i32::MAX,
                    forall|a: int, b: int, c: int|
                        x <= a < x + width && y <= b < y + j && z <= c < z + depth
                            ==> world.spec_voxel(a, b, c) == block,
                    forall|a: int, b: int, c: int|
                        x <= a < x + width && b == y + j && z <= c < z + k
                            ==> world.spec_voxel(a, b, c) == block,
                    forall|a: int, b: int, c: int|
                        x <= a < x + i && b == y + j && c == z + k
                            ==> world.spec_voxel(a, b, c) == block,
                    forall|a: int, b: int, c: int|
                        !(x <= a < x + width && y <= b < y + height && z <= c < z + depth)
                            ==> world.spec_voxel(a, b, c) == old(world).spec_voxel(a, b, c),
                decreases width - i,
            {
                world.add_voxel(block, x + i, y + j, z + k);
                i = i + 1;
            }
            k = k + 1;
        }
        j = j + 1;
    }
}

/// The flat chunk test world: a grass plane 48 voxels square around the
/// origin, with stone-block posts at the chunk corners and a walled stone
/// enclosure.
pub fn build_chunk_test_vorld() -> (w: Vorld)
    ensures
        w.wf(),
        forall|a: int, c: int| -16 <= a < 32 && -16 <= c < 32
            ==> w.spec_voxel(a, 0, c) == BlockIds::Grass.spec_id(),
{
    let mut world = Vorld::new();

    let mut x: i32 = -16;
    while x < 32
        invariant
            world.wf(),
            -16 <= x <= 32,
            forall|a: int, c: int| -16 <= a < x && -16 <= c < 32
                ==> world.spec_voxel(a, 0, c) == 1u8,
        decreases 32 - x,
    {
        let mut z: i32 = -16;
        while z < 32
            invariant
                world.wf(),
                -16 <= x < 32,
                -16 <= z <= 32,
                forall|a: int, c: int| -16 <= a < x && -16 <= c < 32
                    ==> world.spec_voxel(a, 0, c) == 1u8,
                forall|c: int| -16 <= c < z ==> world.spec_voxel(x as int, 0, c) == 1u8,
            decreases 32 - z,
        {
            world.add_voxel(BlockIds::Grass.id(), x, 0, z);
            let px = crate::coords::position_in_chunk(x);
            let pz = crate::coords::position_in_chunk(z);
            if (px == 0 || px == 15) && (pz == 0 || pz == 15) {
                world.add_voxel(BlockIds::StoneBlocks.id(), x, 1, z);
            }
            proof {
                assert forall|c: int| -16 <= c < z + 1
                    implies world.spec_voxel(x as int, 0, c) == 1u8 by {}
            }
            z = z + 1;
        }
        x = x + 1;
    }

    let mut x2: i32 = 4;
    while x2 < 12
        invariant
            world.wf(),
            4 <= x2 <= 12,
            forall|a: int, c: int| -16 <= a < 32 && -16 <= c < 32
                ==> world.spec_voxel(a, 0, c) == 1u8,
        decreases 12 - x2,
    {
        let mut z2: i32 = 4;
        while z2 < 12
            invariant
                world.wf(),
                4 <= x2 < 12,
                4 <= z2 <= 12,
                forall|a: int, c: int| -16 <= a < 32 && -16 <= c < 32
                    ==> world.spec_voxel(a, 0, c) == 1u8,
            decreases 12 - z2,
        {
            let mut y2: i32 = 1;
            while y2 < 18
                invariant
                    world.wf(),
                    4 <= x2 < 12,
                    4 <= z2 < 12,
                    1 <= y2 <= 18,
                    forall|a: int, c: int| -16 <= a < 32 && -16 <= c < 32
                        ==> world.spec_voxel(a, 0, c) == 1u8,
                decreases 18 - y2,
            {
                if (x2 == 4 || x2 == 11 || z2 == 4 || z2 == 11)
                    && !((x2 == 7 || x2 == 8) && z2 == 4 && y2 <= 2) {
                    world.add_voxel(BlockIds::StoneBlocks.id(), x2, y2, z2);
                }
                y2 = y2 + 1;
            }
            world.add_voxel(BlockIds::StoneBlocks.id(), x2, 18, z2);
            z2 = z2 + 1;
        }
        x2 = x2 + 1;
    }

    world
}

/// The movement test world: a grass base with a stone pyramid, rows of
/// jumps, a grid of posts, arches of several sizes and a crouch-height
/// passage.
pub fn build_controller_test_vorld() -> (w: Vorld)
    ensures
        w.wf(),
        forall|a: int, c: int| -32 <= a < 32 && -32 <= c < 32
            ==> (#[trigger] w.spec_voxel(a, -1, c)) == BlockIds::Grass.spec_id(),
        w.spec_voxel(0, 3, 0) == BlockIds::StoneBlocks.spec_id(),
        w.spec_voxel(-24, 0, 8) == BlockIds::Air.spec_id(),
        w.spec_voxel(-25, 0, 8) == BlockIds::StoneBlocks.spec_id(),
        w.spec_voxel(-28, 1, 0) == BlockIds::Air.spec_id(),
        w.spec_voxel(-28, 2, 0) == BlockIds::StoneBlocks.spec_id(),
{
    let mut world = Vorld::new();

    // Grass base.
    fill(&mut world, BlockIds::Grass.id(), 64, 1, 64, -32, -1, -32);

    // Pyramid.
    let mut i: i32 = 0;
    while i < 4
        invariant
            world.wf(),
            0 <= i <= 4,
            forall|a: int, c: int| -32 <= a < 32 && -32 <= c < 32
                ==> (#[trigger] world.spec_voxel(a, -1, c)) == 1u8,
            i == 4 ==> world.spec_voxel(0, 3, 0) == 5u8,
        decreases 4 - i,
    {
        let hw = 4 - i;
        fill(&mut world, BlockIds::StoneBlocks.id(), 2 * hw, 1, 2 * hw, -hw, i, -hw);
        i = i + 1;
    }

    // Jumps.
    let x_offset: i32 = -16;
    let z_offset: i32 = -16;
    fill(&mut world, BlockIds::StoneBlocks.id(), 2, 1, 1, x_offset, 0, z_offset);

    let mut z: i32 = -1;
    let mut gap: i32 = 0;
    while gap <= 5
        invariant
            world.wf(),
            0 <= gap <= 6,
            -1 <= z <= 7 * gap - 1,
            x_offset == -16,
            z_offset == -16,
            forall|a: int, c: int| -32 <= a < 32 && -32 <= c < 32
                ==> (#[trigger] world.spec_voxel(a, -1, c)) == 1u8,
            world.spec_voxel(0, 3, 0) == 5u8,
        decreases 6 - gap,
    {
        z = z + 2 + gap;
        fill(&mut world, BlockIds::StoneBlocks.id(), 2, 2, 2, x_offset, 0, z + z_offset);
        gap = gap + 1;
    }

    world.add_voxel(BlockIds::StoneBlocks.id(), x_offset + 3, 0, z_offset + 5);
    fill(&mut world, BlockIds::StoneBlocks.id(), 1, 1, 2, x_offset + 3, 0, z_offset + 11);
    fill(&mut world, BlockIds::StoneBlocks.id(), 1, 1, 3, x_offset + 3, 0, z_offset + 22);
    fill(&mut world, BlockIds::StoneBlocks.id(), 2, 2, 2, x_offset + 4, 0, z_offset + 8);
    fill(&mut world, BlockIds::StoneBlocks.id(), 2, 2, 2, x_offset + 4, 0, z_offset + 16);

    // Grid of posts.
    let gx_offset: i32 = 16;
    let mut k: i32 = -1;
    while k <= 1
        invariant
            world.wf(),
            -1 <= k <= 2,
            gx_offset == 16,
            forall|a: int, c: int| -32 <= a < 32 && -32 <= c < 32
                ==> (#[trigger] world.spec_voxel(a, -1, c)) == 1u8,
            world.spec_voxel(0, 3, 0) == 5u8,
        decreases 2 - k,
    {
        let mut gi: i32 = -1;
        while gi <= 1
            invariant
                world.wf(),
                -1 <= gi <= 2,
                -1 <= k <= 1,
                gx_offset == 16,
                forall|a: int, c: int| -32 <= a < 32 && -32 <= c < 32
                    ==> (#[trigger] world.spec_voxel(a, -1, c)) == 1u8,
                world.spec_voxel(0, 3, 0) == 5u8,
            decreases 2 - gi,
        {
            world.add_voxel(BlockIds::StoneBlocks.id(), gx_offset + 2 * gi, 0, 2 * k);
            gi = gi + 1;
        }
        k = k + 1;
    }

    // Arches.
    let ax_offset: i32 = -24;
    let mut ai: i32 = 0;
    while ai < 2
        invariant
            world.wf(),
            0 <= ai <= 2,
            ax_offset == -24,
            forall|a: int, c: int| -32 <= a < 32 && -32 <= c < 32
                ==> (#[trigger] world.spec_voxel(a, -1, c)) == 1u8,
            world.spec_voxel(0, 3, 0) == 5u8,
        decreases 2 - ai,
    {
        fill(&mut world, BlockIds::StoneBlocks.id(), 3, 3 - ai, 1, ax_offset - 1, 0, -4 * ai);
        fill(&mut world, BlockIds::Air.id(), 1, 2 - ai, 1, ax_offset, 0, -4 * ai);
        ai = ai + 1;
    }

    // Larger arches.
    fill(&mut world, BlockIds::StoneBlocks.id(), 4, 3, 1, ax_offset - 1, 0, 4);
    fill(&mut world, BlockIds::Air.id(), 2, 2, 1, ax_offset, 0, 4);
    fill(&mut world, BlockIds::StoneBlocks.id(), 4, 4, 1, ax_offset - 1, 0, 8);
    fill(&mut world, BlockIds::Air.id(), 2, 3, 1, ax_offset, 0, 8);

    // Crouch jump test.
    fill(&mut world, BlockIds::StoneBlocks.id(), 3, 3, 1, ax_offset - 5, 0, 0);
    fill(&mut world, BlockIds::Air.id(), 1, 1, 1, ax_offset - 4, 1, 0);

    world
}

} // verus!
