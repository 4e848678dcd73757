//! The resolver: which pairs of registered volumes collide, and what each
//! collision calls for.
//!
//! The resolver never moves anything itself. It reads one snapshot of the
//! registry and answers with the list of collisions and, for each, the
//! displacement to apply, if any. All answers of one frame are worked out
//! against the same bounds: a displacement found for one pair has no bearing
//! on the next.

use vstd::prelude::*;
use crate::computed::AabbComputed;
use crate::kinds::{CollisionBehavior, CollisionKind, Entity};
use crate::vec2::Vec2;
use crate::world::{enumerates, CollisionWorld, Entry};

verus! {

/// What the movement policies of two solid volumes call for when they
/// overlap.
#[derive(Clone, Copy, Debug, PartialEq, Eq, Structural)]
pub enum Handling {
    /// The owner of the first volume is pushed out of the second.
    DisplaceFirst,
    /// The owner of the second volume is pushed out of the first.
    DisplaceSecond,
    /// Neither owner moves.
    Rest,
    /// Nothing is defined for this pair of policies.
    Unhandled,
}

/// What is to be done about a collision.
#[derive(Clone, Copy, Debug, PartialEq, Eq, Structural)]
pub enum Resolution {
    /// Nothing moves: a sensor is involved, or neither owner responds.
    Rest,
    /// The translation of `entity` is to be moved by `by`.
    Displace { entity: Entity, by: Vec2 },
    /// Two solid volumes overlap whose policies have no defined handling.
    /// Nothing moves; the pair is there to be reported.
    Unresolved,
}

/// Two overlapping volumes of different owners.
#[derive(Clone, Copy, Debug, PartialEq, Eq, Structural)]
pub struct Collision {
    pub first: Entry,
    pub second: Entry,
    pub kind: CollisionKind,
    pub resolution: Resolution,
}

/// The table of movement policies. A player is pushed out of what is static,
/// whichever comes first; two inert volumes rest; every other pair is
/// unhandled.
pub open spec fn spec_handling(first: CollisionBehavior, second: CollisionBehavior) -> Handling {
    match (first, second) {
        (CollisionBehavior::Player, CollisionBehavior::Static) => Handling::DisplaceFirst,
        (CollisionBehavior::Static, CollisionBehavior::Player) => Handling::DisplaceSecond,
        (CollisionBehavior::Inert, CollisionBehavior::Inert) => Handling::Rest,
        _ => Handling::Unhandled,
    }
}

/// The displacement of `moved` out of `obstacle` as a vector.
pub open spec fn push_out(moved: AabbComputed, obstacle: AabbComputed) -> Vec2 {
    Vec2 { x: moved.displacement(obstacle).0 as i64, y: moved.displacement(obstacle).1 as i64 }
}

/// What an overlap of the given kind calls for. Only two colliders ever
/// displace anything, and then only the one the policy table names.
pub open spec fn spec_resolution(first: Entry, second: Entry, kind: CollisionKind) -> Resolution {
    if kind == CollisionKind::ColliderCollider {
        match spec_handling(first.aabb.collision_behavior, second.aabb.collision_behavior) {
            Handling::DisplaceFirst => Resolution::Displace {
                entity: first.entity,
                by: push_out(first.aabb, second.aabb),
            },
            Handling::DisplaceSecond => Resolution::Displace {
                entity: second.entity,
                by: push_out(second.aabb, first.aabb),
            },
            Handling::Rest => Resolution::Rest,
            Handling::Unhandled => Resolution::Unresolved,
        }
    } else {
        Resolution::Rest
    }
}

/// The collision of two volumes, if they collide.
pub open spec fn spec_resolve(first: Entry, second: Entry) -> Option<Collision> {
    match first.aabb.spec_intersects(second.aabb, first.entity, second.entity) {
        Some(kind) => Some(
            Collision { first, second, kind, resolution: spec_resolution(first, second, kind) },
        ),
        None => None,
    }
}

/// The collisions of volume `i` with the volumes after it and before `j`, in
/// that order.
pub open spec fn collisions_from(entries: Seq<Entry>, i: int, j: int) -> Seq<Collision>
    decreases j - i,
{
    if j <= i + 1 {
        Seq::empty()
    } else {
        match spec_resolve(entries[i], entries[j - 1]) {
            Some(collision) => collisions_from(entries, i, j - 1).push(collision),
            None => collisions_from(entries, i, j - 1),
        }
    }
}

/// The collisions of the first `n` volumes, each with the volumes listed
/// after it.
pub open spec fn collisions_upto(entries: Seq<Entry>, n: int) -> Seq<Collision>
    decreases n,
{
    if n <= 0 {
        Seq::empty()
    } else {
        collisions_upto(entries, n - 1) + collisions_from(entries, n - 1, entries.len() as int)
    }
}

/// The collisions among the listed volumes: one for each pair that collides,
/// taken once, pairs of an earlier volume first.
pub open spec fn all_collisions(entries: Seq<Entry>) -> Seq<Collision> {
    collisions_upto(entries, entries.len() as int)
}

/// Looks a pair of movement policies up in the policy table.
#[verifier::when_used_as_spec(spec_handling)]
pub fn handling(first: CollisionBehavior, second: CollisionBehavior) -> (found: Handling)
    ensures
        found == spec_handling(first, second),
{
    match (first, second) {
        (CollisionBehavior::Player, CollisionBehavior::Static) => Handling::DisplaceFirst,
        (CollisionBehavior::Static, CollisionBehavior::Player) => Handling::DisplaceSecond,
        (CollisionBehavior::Inert, CollisionBehavior::Inert) => Handling::Rest,
        _ => Handling::Unhandled,
    }
}

/// Tests two volumes for a collision and says what it calls for. A sensor
/// never displaces anything; two colliders are handled as the policy table
/// says, and a pair it does not know comes back as unresolved.
#[verifier::when_used_as_spec(spec_resolve)]
pub fn resolve(first: Entry, second: Entry) -> (found: Option<Collision>)
    requires
        first.aabb.wf(),
        second.aabb.wf(),
    ensures
        found == spec_resolve(first, second),
        found is Some <==> first.entity != second.entity && first.aabb.overlaps(second.aabb),
{
    match first.aabb.intersects(&second.aabb, first.entity, second.entity) {
        None => None,
        Some(kind) => {
            let resolution = match kind {
                CollisionKind::ColliderCollider => {
                    match handling(first.aabb.collision_behavior, second.aabb.collision_behavior) {
                        Handling::DisplaceFirst => Resolution::Displace {
                            entity: first.entity,
                            by: first.aabb.shallow_axis_displace(&second.aabb),
                        },
                        Handling::DisplaceSecond => Resolution::Displace {
                            entity: second.entity,
                            by: second.aabb.shallow_axis_displace(&first.aabb),
                        },
                        Handling::Rest => Resolution::Rest,
                        Handling::Unhandled => Resolution::Unresolved,
                    }
                },
                CollisionKind::SensorCollider => Resolution::Rest,
                CollisionKind::SensorSensor => Resolution::Rest,
            };
            Some(Collision { first, second, kind, resolution })
        },
    }
}

/// Finds the collisions among the listed volumes, each pair taken once.
pub fn collisions_among(entries: &Vec<Entry>) -> (found: Vec<Collision>)
    requires
        forall|i: int| 0 <= i < entries@.len() ==> (#[trigger] entries@[i]).aabb.wf(),
    ensures
        found@ == all_collisions(entries@),
{
    let mut found: Vec<Collision> = Vec::new();
    let mut i: usize = 0;
    while i < entries.len()
        invariant
            i <= entries@.len(),
            found@ == collisions_upto(entries@, i as int),
            forall|k: int| 0 <= k < entries@.len() ==> (#[trigger] entries@[k]).aabb.wf(),
        decreases entries@.len() - i,
    {
        let ghost before = found@;
        let mut j: usize = i + 1;
        while j < entries.len()
            invariant
                i < entries@.len(),
                i < j <= entries@.len(),
                found@ == before + collisions_from(entries@, i as int, j as int),
                forall|k: int| 0 <= k < entries@.len() ==> (#[trigger] entries@[k]).aabb.wf(),
            decreases entries@.len() - j,
        {
            if let Some(collision) = resolve(entries[i], entries[j]) {
                found.push(collision);
            }
            j += 1;
        }
        i += 1;
    }
    found
}

/// Scans the registry for collisions. Every pair of registered volumes is
/// tested once; the order in which the pairs are taken is that in which the
/// registry yields its volumes, which is not fixed.
pub fn handle_collision(collision_world: &CollisionWorld) -> (found: Vec<Collision>)
    ensures
        exists|order: Seq<Entry>|
            enumerates(order, collision_world@) && found@ == #[trigger] all_collisions(order),
{
    let order = collision_world.entries();
    collisions_among(&order)
}

} // verus!
