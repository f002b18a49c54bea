//! A voxel-world engine core: chunked sparse voxel storage, face-culled
//! surface meshing, and swept-shape character movement, with the behavior
//! of each part stated in its contracts.
//!
//! The world (`world`) maps chunk coordinates to fixed-size chunks
//! (`chunk`) of block ids, splitting world coordinates by floor division
//! (`coords`). The mesher (`mesher`) turns a chunk plus its neighbors into
//! one triangle mesh per tile id (`config`), emitting exactly the exposed
//! faces. Character movement is fixed point (`fixed`): the per-tick
//! velocity models live in `motion`, the move-and-slide collision steps —
//! interleaved with an outside physics backend's shape sweeps — in
//! `resolver`, and look angles in `look`. `worldgen` authors the reference
//! worlds.

pub mod coords;
pub mod chunk;
pub mod world;
pub mod direction;
pub mod config;
pub mod mesher;
pub mod fixed;
pub mod motion;
pub mod resolver;
pub mod worldgen;
pub mod look;
pub mod collision_groups;
pub mod scene;
