use vorld::config::{reference_config, BlockIds};
use vorld::coords::Vec3i;
use vorld::direction::Direction;
use vorld::mesher::{build_chunk_meshes, is_face_exposed, Mesh};
use vorld::world::Vorld;

fn quad_count(mesh: &Mesh) -> usize {
    assert_eq!(mesh.positions.len() % 4, 0);
    assert_eq!(mesh.indices.len() % 6, 0);
    assert_eq!(mesh.positions.len() / 4, mesh.indices.len() / 6);
    assert_eq!(mesh.normals.len(), mesh.positions.len());
    assert_eq!(mesh.uvs.len(), mesh.positions.len());
    mesh.positions.len() / 4
}

#[test]
fn lone_voxel_emits_six_faces() {
    let mut world = Vorld::new();
    world.add_voxel(BlockIds::Soil.id(), 5, 5, 5);
    let config = reference_config();
    let slice = world.get_slice_for_chunk(Vec3i::new(0, 0, 0)).unwrap();
    let meshes = build_chunk_meshes(&slice, &config);
    assert_eq!(meshes.len(), 1);
    assert_eq!(meshes[0].0, 2);
    assert_eq!(quad_count(&meshes[0].1), 6);
}

#[test]
fn adjacent_voxels_cull_the_shared_face() {
    let mut world = Vorld::new();
    world.add_voxel(BlockIds::Soil.id(), 5, 5, 5);
    world.add_voxel(BlockIds::Soil.id(), 6, 5, 5);
    let config = reference_config();
    let slice = world.get_slice_for_chunk(Vec3i::new(0, 0, 0)).unwrap();
    let meshes = build_chunk_meshes(&slice, &config);
    // Two cubes, each face emitted at most once, and the shared boundary
    // emitted by neither side: 12 - 2 faces.
    assert_eq!(meshes.len(), 1);
    assert_eq!(quad_count(&meshes[0].1), 10);
    // The culling is asymmetric per direction: the left voxel keeps no
    // +X face and the right voxel no -X face.
    assert!(!is_face_exposed(&slice, 5, 5, 5, Direction::Right));
    assert!(!is_face_exposed(&slice, 6, 5, 5, Direction::Left));
    assert!(is_face_exposed(&slice, 5, 5, 5, Direction::Left));
    assert!(is_face_exposed(&slice, 6, 5, 5, Direction::Right));
}

#[test]
fn boundary_face_against_absent_neighbor_is_exposed() {
    let mut world = Vorld::new();
    world.add_voxel(BlockIds::Stone.id(), 0, 8, 8);
    let slice = world.get_slice_for_chunk(Vec3i::new(0, 0, 0)).unwrap();
    assert!(slice.left_chunk.is_none());
    assert!(is_face_exposed(&slice, 0, 8, 8, Direction::Left));
    let config = reference_config();
    let meshes = build_chunk_meshes(&slice, &config);
    assert_eq!(meshes.len(), 1);
    assert_eq!(quad_count(&meshes[0].1), 6);
}

#[test]
fn boundary_face_against_present_solid_neighbor_is_culled() {
    let mut world = Vorld::new();
    world.add_voxel(BlockIds::Stone.id(), 0, 8, 8);
    world.add_voxel(BlockIds::Stone.id(), -1, 8, 8);
    let slice = world.get_slice_for_chunk(Vec3i::new(0, 0, 0)).unwrap();
    assert!(slice.left_chunk.is_some());
    assert!(!is_face_exposed(&slice, 0, 8, 8, Direction::Left));
}

#[test]
fn mesh_bucket_isolation() {
    let mut world = Vorld::new();
    // Grass and soil side by side: two tiles' meshes in one chunk.
    world.add_voxel(BlockIds::Grass.id(), 2, 2, 2);
    world.add_voxel(BlockIds::Soil.id(), 2, 4, 2);
    let config = reference_config();
    let slice = world.get_slice_for_chunk(Vec3i::new(0, 0, 0)).unwrap();
    let meshes = build_chunk_meshes(&slice, &config);
    assert!(meshes.len() >= 2);
    for (_, mesh) in &meshes {
        quad_count(mesh);
        for &index in &mesh.indices {
            assert!((index as usize) < mesh.positions.len());
        }
    }
    // Distinct tile ids per mesh.
    for a in 0..meshes.len() {
        for b in (a + 1)..meshes.len() {
            assert_ne!(meshes[a].0, meshes[b].0);
        }
    }
}

#[test]
fn quad_layout_of_an_up_face() {
    let mut mesh = Mesh::new();
    mesh.push_face(Direction::Up, 0, 0, 0);
    assert_eq!(mesh.positions, vec![(0, 1, 0), (0, 1, 1), (1, 1, 1), (1, 1, 0)]);
    assert_eq!(mesh.uvs, vec![(0, 0), (0, 1), (1, 1), (1, 0)]);
    assert_eq!(mesh.normals, vec![(0, 1, 0); 4]);
    assert_eq!(mesh.indices, vec![0, 1, 2, 0, 2, 3]);
    mesh.push_face(Direction::Left, 3, 4, 5);
    assert_eq!(mesh.indices[6..], [4, 5, 6, 4, 6, 7]);
    assert_eq!(mesh.positions[4], (3, 4, 5));
    assert_eq!(mesh.normals[4], (-1, 0, 0));
}

#[test]
fn flat_grass_chunk_produces_three_tile_meshes() {
    let mut world = Vorld::new();
    for x in 0..16 {
        for z in 0..16 {
            world.add_voxel(BlockIds::Grass.id(), x, 0, z);
        }
    }
    let config = reference_config();
    let slice = world.get_slice_for_chunk(Vec3i::new(0, 0, 0)).unwrap();
    let meshes = build_chunk_meshes(&slice, &config);
    assert_eq!(meshes.len(), 3);
    let mut top = None;
    let mut bottom = None;
    let mut side = None;
    for (tile, mesh) in &meshes {
        match tile {
            0 => top = Some(quad_count(mesh)),
            2 => bottom = Some(quad_count(mesh)),
            1 => side = Some(quad_count(mesh)),
            other => panic!("unexpected tile id {}", other),
        }
    }
    assert_eq!(top, Some(256));
    assert_eq!(bottom, Some(256));
    assert_eq!(side, Some(64));
}

#[test]
fn reference_lookup_table_rows() {
    let config = reference_config();
    assert_eq!(config.tile_for(BlockIds::Grass.id(), Direction::Up), 0);
    assert_eq!(config.tile_for(BlockIds::Grass.id(), Direction::Down), 2);
    assert_eq!(config.tile_for(BlockIds::Grass.id(), Direction::Left), 1);
    assert_eq!(config.tile_for(BlockIds::Grass.id(), Direction::Right), 1);
    assert_eq!(config.tile_for(BlockIds::Grass.id(), Direction::Forward), 1);
    assert_eq!(config.tile_for(BlockIds::Grass.id(), Direction::Back), 1);
    assert_eq!(config.tile_for(BlockIds::Soil.id(), Direction::Up), 2);
    assert_eq!(config.tile_for(BlockIds::StoneBlocks.id(), Direction::Up), 5);
    assert_eq!(config.tile_for(BlockIds::StoneBlocks.id(), Direction::Back), 4);
    assert_eq!(config.tile_for(BlockIds::Debug.id(), Direction::Forward), 17);
    assert_eq!(config.tile_for(BlockIds::Debug.id(), Direction::Left), 19);
    assert_eq!(config.tile_for(BlockIds::Air.id(), Direction::Up), 0);
    assert_eq!(config.tile_for(255, Direction::Up), 0);
}

#[test]
fn face_winding_matches_normals() {
    // For every direction, the cross product of the quad's first two edges
    // must point along the stored outward normal.
    for direction in [
        Direction::Forward,
        Direction::Back,
        Direction::Up,
        Direction::Down,
        Direction::Right,
        Direction::Left,
    ] {
        let mut mesh = Mesh::new();
        mesh.push_face(direction, 4, 5, 6);
        let p = |k: usize| {
            let (x, y, z) = mesh.positions[k];
            (x as i32, y as i32, z as i32)
        };
        let (ax, ay, az) = p(0);
        let (bx, by, bz) = p(1);
        let (cx, cy, cz) = p(2);
        let (ux, uy, uz) = (bx - ax, by - ay, bz - az);
        let (vx, vy, vz) = (cx - bx, cy - by, cz - bz);
        let cross = (uy * vz - uz * vy, uz * vx - ux * vz, ux * vy - uy * vx);
        let (nx, ny, nz) = mesh.normals[0];
        assert_eq!(cross, (nx as i32, ny as i32, nz as i32));
    }
}

#[test]
fn no_face_is_emitted_twice() {
    let mut world = Vorld::new();
    for x in 0..16 {
        for z in 0..16 {
            world.add_voxel(BlockIds::Grass.id(), x, 0, z);
        }
    }
    world.add_voxel(BlockIds::Soil.id(), 3, 1, 3);
    let config = reference_config();
    let slice = world.get_slice_for_chunk(Vec3i::new(0, 0, 0)).unwrap();
    let meshes = build_chunk_meshes(&slice, &config);
    // A face is identified by its first corner and its normal; across all
    // tile meshes each may appear at most once.
    let mut seen = Vec::new();
    for (_, mesh) in &meshes {
        for q in 0..quad_count(mesh) {
            let key = (mesh.positions[4 * q], mesh.normals[4 * q]);
            assert!(!seen.contains(&key), "face emitted twice: {:?}", key);
            seen.push(key);
        }
    }
    // The grass cell under the soil block no longer shows its top face:
    // 255 grass tops instead of 256.
    let top = meshes.iter().find(|(tile, _)| *tile == 0).unwrap();
    assert_eq!(quad_count(&top.1), 255);
}
