use vorld::collision_groups::NamedCollisionGroups;
use vorld::scene::{find_child_with_component, find_child_with_name,
    find_children_with_component, SceneTree};
use vorld::config::BlockIds;
use vorld::look::{update_look, FULL_TURN, PITCH_LIMIT};
use vorld::world::Vorld;
use vorld::worldgen::{build_chunk_test_vorld, build_controller_test_vorld, fill};

#[test]
fn fill_writes_the_box_and_nothing_else() {
    let mut world = Vorld::new();
    fill(&mut world, 3, 2, 3, 4, 10, 20, 30);
    for x in 10..12 {
        for y in 20..23 {
            for z in 30..34 {
                assert_eq!(world.get_voxel(x, y, z), 3);
            }
        }
    }
    assert_eq!(world.get_voxel(9, 20, 30), 0);
    assert_eq!(world.get_voxel(12, 20, 30), 0);
    assert_eq!(world.get_voxel(10, 19, 30), 0);
    assert_eq!(world.get_voxel(10, 23, 30), 0);
    assert_eq!(world.get_voxel(10, 20, 29), 0);
    assert_eq!(world.get_voxel(10, 20, 34), 0);
}

#[test]
fn chunk_test_world_has_ground_and_corner_posts() {
    let world = build_chunk_test_vorld();
    assert_eq!(world.get_voxel(0, 0, 0), BlockIds::Grass.id());
    assert_eq!(world.get_voxel(-16, 0, -16), BlockIds::Grass.id());
    assert_eq!(world.get_voxel(31, 0, 31), BlockIds::Grass.id());
    // Posts stand where both local coordinates sit on a chunk edge.
    assert_eq!(world.get_voxel(0, 1, 0), BlockIds::StoneBlocks.id());
    assert_eq!(world.get_voxel(15, 1, 15), BlockIds::StoneBlocks.id());
    assert_eq!(world.get_voxel(1, 1, 0), BlockIds::Air.id());
    // The enclosure wall and its roof.
    assert_eq!(world.get_voxel(4, 5, 7), BlockIds::StoneBlocks.id());
    assert_eq!(world.get_voxel(7, 18, 7), BlockIds::StoneBlocks.id());
    assert_eq!(world.get_voxel(7, 5, 7), BlockIds::Air.id());
    // The doorway through the wall.
    assert_eq!(world.get_voxel(7, 1, 4), BlockIds::Air.id());
    assert_eq!(world.get_voxel(7, 3, 4), BlockIds::StoneBlocks.id());
}

#[test]
fn controller_test_world_has_base_pyramid_and_arches() {
    let world = build_controller_test_vorld();
    assert_eq!(world.get_voxel(0, -1, 0), BlockIds::Grass.id());
    assert_eq!(world.get_voxel(-32, -1, 31), BlockIds::Grass.id());
    // Pyramid layers shrink with height.
    assert_eq!(world.get_voxel(0, 0, 0), BlockIds::StoneBlocks.id());
    assert_eq!(world.get_voxel(0, 3, 0), BlockIds::StoneBlocks.id());
    assert_eq!(world.get_voxel(-4, 0, -4), BlockIds::StoneBlocks.id());
    assert_eq!(world.get_voxel(-4, 1, -4), BlockIds::Air.id());
    // An arch: hollow inside, solid jamb.
    assert_eq!(world.get_voxel(-24, 0, 0), BlockIds::Air.id());
    assert_eq!(world.get_voxel(-25, 0, 0), BlockIds::StoneBlocks.id());
    // The crouch passage: a one-voxel slot.
    assert_eq!(world.get_voxel(-28, 1, 0), BlockIds::Air.id());
    assert_eq!(world.get_voxel(-28, 2, 0), BlockIds::StoneBlocks.id());
}

#[test]
fn look_pitch_clamps_short_of_vertical() {
    // A huge downward mouse delta cannot push pitch past the limit.
    let (_, pitch) = update_look(0, 0, 0, 1_000_000, 1_000);
    assert_eq!(pitch, -PITCH_LIMIT);
    let (_, pitch_up) = update_look(0, 0, 0, -1_000_000, 1_000);
    assert_eq!(pitch_up, PITCH_LIMIT);
    // A small delta moves pitch exactly.
    let (_, p) = update_look(0, 100, 0, 500, 1_000);
    assert_eq!(p, 100 - 50);
}

#[test]
fn look_yaw_wraps_modulo_a_full_turn() {
    // A delta that turns more than a full circle wraps.
    let (yaw, _) = update_look(6_000, 0, -10_000, 0, 1_000);
    assert_eq!(yaw, (6_000 + 1_000) % FULL_TURN);
    assert!(yaw.abs() < FULL_TURN);
    let (yaw2, _) = update_look(0, 0, 500, 0, 1_000);
    assert_eq!(yaw2, -50);
}

#[test]
fn collision_group_masks() {
    assert_eq!(NamedCollisionGroups::Everything.bits(), u32::MAX);
    assert_eq!(NamedCollisionGroups::Terrain.bits(), 0b0001);
    assert_eq!(NamedCollisionGroups::Projectile.bits(), 0b0010);
    assert_eq!(NamedCollisionGroups::Npc.bits(), 0b0100);
}

#[test]
fn scene_tree_searches() {
    // root(0) -> body(1) -> muzzle(3, name 7, light component)
    //         -> camera(2, camera component)
    let mut tree = SceneTree::new();
    let root = tree.add_node(0, 0);
    let body = tree.add_node(0, 0);
    let camera = tree.add_node(0, 0b01);
    let muzzle = tree.add_node(7, 0b10);
    tree.add_child(root, body);
    tree.add_child(root, camera);
    tree.add_child(body, muzzle);

    assert_eq!(find_child_with_name(&tree, root, 7), Some(muzzle));
    assert_eq!(find_child_with_name(&tree, camera, 7), None);
    assert_eq!(find_child_with_name(&tree, root, 9), None);
    assert_eq!(find_child_with_component(&tree, root, 0b01), Some(camera));
    assert_eq!(find_child_with_component(&tree, root, 0b10), Some(muzzle));
    assert_eq!(find_child_with_component(&tree, root, 0b100), None);

    let mut all = Vec::new();
    find_children_with_component(&tree, &mut all, root, 0b11);
    assert_eq!(all, vec![muzzle, camera]);
}

#[test]
fn scene_search_returns_the_depth_first_match() {
    // Two nodes carry the name; depth-first order reaches the one under
    // the earlier child first, even though the other has a smaller arena
    // index.
    let mut tree = SceneTree::new();
    let root = tree.add_node(0, 0);
    let body = tree.add_node(0, 0);
    let camera = tree.add_node(7, 0);
    let deep = tree.add_node(7, 0);
    tree.add_child(root, body);
    tree.add_child(root, camera);
    tree.add_child(body, deep);
    assert_eq!(find_child_with_name(&tree, root, 7), Some(deep));
    assert!(camera > 0);
}
