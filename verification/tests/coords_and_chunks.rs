use vorld::coords::{chunk_index, position_in_chunk, Vec3i, CHUNK_SIZE};
use vorld::chunk::Chunk;
use vorld::world::Vorld;

#[test]
fn chunk_index_floor_division() {
    assert_eq!(chunk_index(-15), -1);
    assert_eq!(chunk_index(-16), -1);
    assert_eq!(chunk_index(-17), -2);
    assert_eq!(chunk_index(0), 0);
    assert_eq!(chunk_index(15), 0);
    assert_eq!(chunk_index(16), 1);
    assert_eq!(chunk_index(-1), -1);
    assert_eq!(chunk_index(-32), -2);
    assert_eq!(chunk_index(31), 1);
}

#[test]
fn local_coordinate_round_trip() {
    for v in [-33, -32, -17, -16, -15, -1, 0, 1, 15, 16, 17, 31, 32] {
        let local = position_in_chunk(v);
        assert!(local < CHUNK_SIZE);
        let rebuilt = chunk_index(v) as i64 * CHUNK_SIZE as i64 + local as i64;
        assert_eq!(rebuilt, v as i64);
    }
}

#[test]
fn storage_index_round_trip() {
    for x in 0..CHUNK_SIZE {
        for y in 0..CHUNK_SIZE {
            for z in 0..CHUNK_SIZE {
                let i = Chunk::voxel_index(x, y, z);
                assert_eq!(Chunk::get_block_position(i), (x, y, z));
            }
        }
    }
    assert_eq!(Chunk::voxel_index(1, 2, 3), 1 + 16 * 3 + 256 * 2);
    assert_eq!(Chunk::get_block_position(0), (0, 0, 0));
    assert_eq!(Chunk::get_block_position(4095), (15, 15, 15));
}

#[test]
fn chunk_add_and_get_voxel() {
    let mut chunk = Chunk::new(Vec3i::new(0, 0, 0), 0);
    assert_eq!(chunk.get_voxel(5, 6, 7), 0);
    chunk.add_voxel(3, 5, 6, 7);
    assert_eq!(chunk.get_voxel(5, 6, 7), 3);
    assert_eq!(chunk.get_voxel(6, 6, 7), 0);
    assert_eq!(chunk.get_voxel(5, 7, 7), 0);
    let filled = Chunk::new(Vec3i::new(1, 2, 3), 9);
    assert_eq!(filled.get_voxel(0, 0, 0), 9);
    assert_eq!(filled.get_voxel(15, 15, 15), 9);
    assert_eq!(filled.indices, Vec3i::new(1, 2, 3));
}

#[test]
fn world_reads_air_where_no_chunk_exists() {
    let world = Vorld::new();
    assert_eq!(world.get_voxel(0, 0, 0), 0);
    assert_eq!(world.get_voxel(-1000, 52, 7), 0);
}

#[test]
fn world_add_and_get_voxel_across_chunks() {
    let mut world = Vorld::new();
    world.add_voxel(1, 0, 0, 0);
    world.add_voxel(2, -1, 0, 0);
    world.add_voxel(3, 15, 31, -17);
    assert_eq!(world.get_voxel(0, 0, 0), 1);
    assert_eq!(world.get_voxel(-1, 0, 0), 2);
    assert_eq!(world.get_voxel(15, 31, -17), 3);
    assert_eq!(world.get_voxel(1, 0, 0), 0);
    assert_eq!(world.get_voxel(-2, 0, 0), 0);
    world.add_voxel(7, 0, 0, 0);
    assert_eq!(world.get_voxel(0, 0, 0), 7);
}

#[test]
fn air_write_creates_no_chunk() {
    // A chunk exists exactly when a non-air voxel was written into it:
    // writing air where no chunk exists changes nothing.
    let mut world = Vorld::new();
    world.add_voxel(0, 5, 5, 5);
    assert_eq!(world.chunks.len(), 0);
    assert_eq!(world.get_voxel(5, 5, 5), 0);
    // A non-air write creates the chunk; overwriting with air keeps it.
    world.add_voxel(3, 5, 5, 5);
    assert_eq!(world.chunks.len(), 1);
    world.add_voxel(0, 5, 5, 5);
    assert_eq!(world.chunks.len(), 1);
    assert_eq!(world.get_voxel(5, 5, 5), 0);
}

#[test]
fn world_slice_gathers_neighbors() {
    let mut world = Vorld::new();
    world.add_voxel(1, 0, 0, 0);
    world.add_voxel(2, 16, 0, 0);
    world.add_voxel(3, 0, -1, 0);
    let slice = world.get_slice_for_chunk(Vec3i::new(0, 0, 0)).unwrap();
    assert_eq!(slice.chunk.get_voxel(0, 0, 0), 1);
    assert!(slice.right_chunk.is_some());
    assert_eq!(slice.right_chunk.unwrap().get_voxel(0, 0, 0), 2);
    assert!(slice.down_chunk.is_some());
    assert_eq!(slice.down_chunk.unwrap().get_voxel(0, 15, 0), 3);
    assert!(slice.left_chunk.is_none());
    assert!(slice.up_chunk.is_none());
    assert!(slice.forward_chunk.is_none());
    assert!(slice.back_chunk.is_none());
    assert!(world.get_slice_for_chunk(Vec3i::new(5, 5, 5)).is_none());
}
