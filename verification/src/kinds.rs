//! The tags a bounding volume carries: whether it is solid, how its owner
//! reacts to being hit, and who that owner is.

use vstd::prelude::*;

verus! {

/// Identity of the entity that owns a volume, as the bits of its
/// generational index.
#[derive(Clone, Copy, Debug, PartialEq, Eq, Structural)]
pub struct Entity(pub u64);

/// What a volume is for.
#[derive(Clone, Copy, Debug, PartialEq, Eq, Structural)]
pub enum AabbKind {
    /// Detects overlap without ever blocking.
    Sensor,
    /// Solid: takes part in displacement.
    Collider,
}

/// What an overlap of two volumes amounts to.
#[derive(Clone, Copy, Debug, PartialEq, Eq, Structural)]
pub enum CollisionKind {
    SensorSensor,
    ColliderCollider,
    SensorCollider,
}

/// How the owner of a volume responds to a solid collision.
#[derive(Clone, Copy, Debug, PartialEq, Eq, Structural)]
pub enum CollisionBehavior {
    /// The owner takes no part in collision response.
    Inert,
    Static,
    Npc,
    Player,
    Movable,
}

/// Overlap kind of two volumes by their kinds; the order does not matter.
pub open spec fn spec_classify(first: AabbKind, second: AabbKind) -> CollisionKind {
    match (first, second) {
        (AabbKind::Collider, AabbKind::Collider) => CollisionKind::ColliderCollider,
        (AabbKind::Sensor, AabbKind::Sensor) => CollisionKind::SensorSensor,
        _ => CollisionKind::SensorCollider,
    }
}

/// Classifies an overlap by the kinds of the two volumes.
#[verifier::when_used_as_spec(spec_classify)]
pub fn classify(first: AabbKind, second: AabbKind) -> (kind: CollisionKind)
    ensures
        kind == spec_classify(first, second),
{
    match (first, second) {
        (AabbKind::Collider, AabbKind::Collider) => CollisionKind::ColliderCollider,
        (AabbKind::Collider, AabbKind::Sensor) | (AabbKind::Sensor, AabbKind::Collider) => {
            CollisionKind::SensorCollider
        },
        (AabbKind::Sensor, AabbKind::Sensor) => CollisionKind::SensorSensor,
    }
}

} // verus!
