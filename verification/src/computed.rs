//! World-space bounds of a volume, the overlap test and the displacement that
//! separates two overlapping boxes along their shallow axis.

use vstd::prelude::*;
use crate::kinds::{classify, spec_classify, AabbKind, CollisionBehavior, CollisionKind, Entity};
use crate::vec2::{Vec2, WORLD_LIMIT};

verus! {

/// Magnitude of an integer.
pub open spec fn magnitude(v: int) -> int {
    if v < 0 {
        -v
    } else {
        v
    }
}

/// Of two separations the first if it is strictly the smaller in magnitude,
/// else the second.
pub open spec fn nearer(first: int, second: int) -> int {
    if magnitude(first) < magnitude(second) {
        first
    } else {
        second
    }
}

/// Half of `v`, rounded away from zero: what remains of `v` after taking it
/// off is never more than half of `v` in magnitude.
pub open spec fn half(v: int) -> int {
    if v >= 0 {
        (v + 1) / 2
    } else {
        -((1 - v) / 2)
    }
}

/// The corners of a volume in world space, with a copy of its tags.
#[derive(Clone, Copy, Debug, PartialEq, Eq, Structural)]
pub struct AabbComputed {
    pub min: Vec2,
    pub max: Vec2,
    pub aabb_kind: AabbKind,
    pub collision_behavior: CollisionBehavior,
}

impl AabbComputed {
    /// The box is not inverted and its corners lie within reach of the world.
    pub open spec fn wf(self) -> bool {
        &&& self.min.x <= self.max.x
        &&& self.min.y <= self.max.y
        &&& self.min.in_reach()
        &&& self.max.in_reach()
    }

    /// The spans of the two boxes meet on the horizontal axis, bounds
    /// included.
    pub open spec fn overlaps_x(self, other: AabbComputed) -> bool {
        self.min.x <= other.max.x && self.max.x >= other.min.x
    }

    /// The spans of the two boxes meet on the vertical axis, bounds included.
    pub open spec fn overlaps_y(self, other: AabbComputed) -> bool {
        self.min.y <= other.max.y && self.max.y >= other.min.y
    }

    /// The boxes meet on both axes; touching counts.
    pub open spec fn overlaps(self, other: AabbComputed) -> bool {
        self.overlaps_x(other) && self.overlaps_y(other)
    }

    /// What `intersects` answers.
    pub open spec fn spec_intersects(
        self,
        other: AabbComputed,
        self_ent: Entity,
        other_ent: Entity,
    ) -> Option<CollisionKind> {
        if self_ent != other_ent && self.overlaps(other) {
            Some(spec_classify(self.aabb_kind, other.aabb_kind))
        } else {
            None
        }
    }

    /// Separation that puts the right face of `self` on the left face of
    /// `other`.
    pub open spec fn left(self, other: AabbComputed) -> int {
        other.min.x - self.max.x
    }

    /// Separation that puts the left face of `self` on the right face of
    /// `other`.
    pub open spec fn right(self, other: AabbComputed) -> int {
        other.max.x - self.min.x
    }

    /// Separation that puts the top face of `self` on the bottom face of
    /// `other`.
    pub open spec fn down(self, other: AabbComputed) -> int {
        other.min.y - self.max.y
    }

    /// Separation that puts the bottom face of `self` on the top face of
    /// `other`.
    pub open spec fn up(self, other: AabbComputed) -> int {
        other.max.y - self.min.y
    }

    /// The shorter way out along the horizontal axis; rightwards on a tie.
    pub open spec fn horizontal(self, other: AabbComputed) -> int {
        nearer(self.left(other), self.right(other))
    }

    /// The shorter way out along the vertical axis; downwards on a tie.
    pub open spec fn vertical(self, other: AabbComputed) -> int {
        nearer(self.up(other), self.down(other))
    }

    /// The horizontal axis is the shallow one. On a tie it is not: the
    /// vertical axis wins.
    pub open spec fn moves_horizontally(self, other: AabbComputed) -> bool {
        magnitude(self.horizontal(other)) < magnitude(self.vertical(other))
    }

    /// How deep `self` sits in `other`: the least magnitude among the four
    /// separations.
    pub open spec fn penetration(self, other: AabbComputed) -> int {
        if self.moves_horizontally(other) {
            magnitude(self.horizontal(other))
        } else {
            magnitude(self.vertical(other))
        }
    }

    /// What `shallow_axis_displace` answers, as mathematical integers.
    pub open spec fn displacement(self, other: AabbComputed) -> (int, int) {
        if self.moves_horizontally(other) {
            (half(self.horizontal(other)), 0)
        } else {
            (0, half(self.vertical(other)))
        }
    }

    /// The box moved by `(dx, dy)`, tags unchanged.
    pub open spec fn translated(self, by: (int, int)) -> AabbComputed {
        AabbComputed {
            min: Vec2 { x: (self.min.x + by.0) as i64, y: (self.min.y + by.1) as i64 },
            max: Vec2 { x: (self.max.x + by.0) as i64, y: (self.max.y + by.1) as i64 },
            aabb_kind: self.aabb_kind,
            collision_behavior: self.collision_behavior,
        }
    }

    /// Tells whether the box is well formed.
    pub fn is_wf(&self) -> (b: bool)
        ensures
            b == self.wf(),
    {
        self.min.x <= self.max.x && self.min.y <= self.max.y && self.min.is_in_reach()
            && self.max.is_in_reach()
    }

    /// Overlap test. Two volumes of one owner never overlap, whatever their
    /// geometry. Otherwise the boxes overlap when their spans meet on both
    /// axes, bounds included, and the answer is the kind of the overlap.
    pub fn intersects(
        &self,
        other: &AabbComputed,
        self_ent: Entity,
        other_ent: Entity,
    ) -> (hit: Option<CollisionKind>)
        ensures
            hit == self.spec_intersects(*other, self_ent, other_ent),
            self_ent == other_ent ==> hit is None,
            !self.overlaps_x(*other) || !self.overlaps_y(*other) ==> hit is None,
            hit is Some <==> self_ent != other_ent && self.overlaps(*other),
    {
        if self_ent == other_ent {
            return None;
        }
        if self.min.x <= other.max.x && self.max.x >= other.min.x && self.min.y <= other.max.y
            && self.max.y >= other.min.y {
            Some(classify(self.aabb_kind, other.aabb_kind))
        } else {
            None
        }
    }

    /// The move that takes `self` out of `other` along the shallow axis, by
    /// half of the separation on that axis (an odd separation is halved away
    /// from zero). Only one component of the answer is ever non-zero; when
    /// both axes are equally shallow the move is vertical.
    pub fn shallow_axis_displace(&self, other: &AabbComputed) -> (by: Vec2)
        requires
            self.wf(),
            other.wf(),
        ensures
            (by.x as int, by.y as int) == self.displacement(*other),
            by.x == 0 || by.y == 0,
            self.moves_horizontally(*other) ==> by.y == 0 && by.x == half(self.horizontal(*other)),
            !self.moves_horizontally(*other) ==> by.x == 0 && by.y == half(self.vertical(*other)),
            by.in_reach(),
    {
        let left_displacement: i64 = other.min.x - self.max.x;
        let right_displacement: i64 = other.max.x - self.min.x;
        let down_displacement: i64 = other.min.y - self.max.y;
        let up_displacement: i64 = other.max.y - self.min.y;
        let horizontal: i64 = if abs(left_displacement) < abs(right_displacement) {
            left_displacement
        } else {
            right_displacement
        };
        let vertical: i64 = if abs(up_displacement) < abs(down_displacement) {
            up_displacement
        } else {
            down_displacement
        };
        if abs(horizontal) < abs(vertical) {
            Vec2::new(halve(horizontal), 0)
        } else {
            Vec2::new(0, halve(vertical))
        }
    }
}

/// Magnitude of a separation.
fn abs(v: i64) -> (m: i64)
    requires
        -4 * WORLD_LIMIT <= v <= 4 * WORLD_LIMIT,
    ensures
        m == magnitude(v as int),
{
    if v < 0 {
        -v
    } else {
        v
    }
}

/// Half of a separation, rounded away from zero.
fn halve(v: i64) -> (h: i64)
    requires
        -4 * WORLD_LIMIT <= v <= 4 * WORLD_LIMIT,
    ensures
        h == half(v as int),
        magnitude(h as int) <= 2 * WORLD_LIMIT,
{
    if v >= 0 {
        (v + 1) / 2
    } else {
        (v - 1) / 2
    }
}

} // verus!
