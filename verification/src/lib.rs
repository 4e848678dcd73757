//! Axis-aligned bounding volumes on an integer grid.
//!
//! Entities carry one or more boxes. Once per frame the registry is refreshed
//! with the world-space bounds of every box whose owner moved
//! ([`updated_computed_aabbs`]); the resolver then scans the registry for
//! overlapping pairs, classifies each overlap and says which owner is to be
//! displaced and by how much ([`handle_collision`]). The resolver moves
//! nothing itself: applying a displacement to a transform is left to the
//! caller.

pub mod aabb;
pub mod computed;
pub mod frame_laws;
pub mod kinds;
pub mod laws;
pub mod resolve;
pub mod vec2;
pub mod world;

pub use aabb::{toggle_debug_render, Aabb, AabbBundle, AabbError};
pub use computed::AabbComputed;
pub use kinds::{classify, AabbKind, CollisionBehavior, CollisionKind, Entity};
pub use resolve::{
    collisions_among, handle_collision, handling, resolve, Collision, Handling, Resolution,
};
pub use vec2::{Vec2, MAX_EXTENT, SCALE, WORLD_LIMIT};
pub use world::{updated_computed_aabbs, AabbState, CollisionWorld, Entry};
