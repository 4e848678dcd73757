//! Two-dimensional integer vectors and the limits of the world they live in.
//!
//! All geometry is carried out on an integer grid. Positions and scaled
//! half-extents never exceed [`WORLD_LIMIT`] in magnitude, so the corners of
//! a bounding box stay within twice that limit and every difference of two
//! corners fits in an `i64`.

use vstd::prelude::*;

verus! {

/// Global render scale applied to every local half-extent.
pub const SCALE: i64 = 4;

/// Largest magnitude of a world position along either axis, and of a scaled
/// half-extent.
pub const WORLD_LIMIT: i64 = 0x1000_0000_0000_0000;

/// Largest local half-extent along either axis: its scaled value is exactly
/// [`WORLD_LIMIT`].
pub const MAX_EXTENT: i64 = 0x0800_0000_0000_0000;

/// A point, an extent or a displacement on the world grid.
#[derive(Clone, Copy, Debug, PartialEq, Eq, Structural)]
pub struct Vec2 {
    pub x: i64,
    pub y: i64,
}

impl Vec2 {
    /// Both components are at most [`WORLD_LIMIT`] in magnitude.
    pub open spec fn in_world(self) -> bool {
        &&& -WORLD_LIMIT <= self.x <= WORLD_LIMIT
        &&& -WORLD_LIMIT <= self.y <= WORLD_LIMIT
    }

    /// Both components are at most twice [`WORLD_LIMIT`] in magnitude, which
    /// is as far as the corner of a bounding box can lie from the origin.
    pub open spec fn in_reach(self) -> bool {
        &&& -2 * WORLD_LIMIT <= self.x <= 2 * WORLD_LIMIT
        &&& -2 * WORLD_LIMIT <= self.y <= 2 * WORLD_LIMIT
    }

    pub fn new(x: i64, y: i64) -> (v: Vec2)
        ensures
            v == (Vec2 { x, y }),
    {
        Vec2 { x, y }
    }

    /// Tells whether the vector is a position inside the world.
    pub fn is_in_world(&self) -> (b: bool)
        ensures
            b == self.in_world(),
    {
        -WORLD_LIMIT <= self.x && self.x <= WORLD_LIMIT && -WORLD_LIMIT <= self.y && self.y
            <= WORLD_LIMIT
    }

    /// Tells whether the vector can be the corner of a bounding box.
    pub fn is_in_reach(&self) -> (b: bool)
        ensures
            b == self.in_reach(),
    {
        -2 * WORLD_LIMIT <= self.x && self.x <= 2 * WORLD_LIMIT && -2 * WORLD_LIMIT <= self.y
            && self.y <= 2 * WORLD_LIMIT
    }
}

} // verus!
