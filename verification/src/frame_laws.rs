//! What holds of a whole frame: of the refreshed registry and of the list of
//! collisions the resolver answers with.

use vstd::prelude::*;
use vstd::seq_lib::{
    lemma_no_dup_in_concat, lemma_seq_concat_contains_all_elements, lemma_seq_contains_after_push,
};
use crate::aabb::Aabb;
use crate::computed::AabbComputed;
use crate::kinds::{AabbKind, CollisionBehavior, CollisionKind, Entity};
use crate::resolve::{
    all_collisions, collisions_from, collisions_upto, push_out, spec_resolve, Collision,
    Resolution,
};
use crate::vec2::Vec2;
use crate::world::{enumerates, refreshed, AabbState, Entry};

verus! {

/// The same collision seen from the other volume.
pub open spec fn swapped(collision: Collision) -> Collision {
    Collision {
        first: collision.second,
        second: collision.first,
        kind: collision.kind,
        resolution: collision.resolution,
    }
}

/// The volumes `i` and `j` of the list, in this order, collide as
/// `collision` says.
pub open spec fn collides_at(entries: Seq<Entry>, i: int, j: int, collision: Collision) -> bool {
    0 <= i < j < entries.len() && spec_resolve(entries[i], entries[j]) == Some(collision)
}

/// No two volumes of the list share an identity.
pub open spec fn distinct_uuids(entries: Seq<Entry>) -> bool {
    forall|i: int, j: int|
        0 <= i < j < entries.len() ==> (#[trigger] entries[i]).uuid != (#[trigger] entries[j]).uuid
}

/// A pair collides in the same way whichever of its volumes is taken first:
/// the kind is the same, and so is what moves and by how much.
pub proof fn lemma_resolve_symmetric(first: Entry, second: Entry)
    ensures
        spec_resolve(second, first) == match spec_resolve(first, second) {
            Some(collision) => Some(swapped(collision)),
            None => None,
        },
{
}

/// Only a player's owner is ever displaced, only out of a static collider,
/// and by the shallow-axis displacement of its box out of the other one. A
/// sensor displaces nothing and is not displaced.
pub proof fn lemma_only_players_are_displaced(first: Entry, second: Entry)
    ensures
        match spec_resolve(first, second) {
            Some(collision) => match collision.resolution {
                Resolution::Displace { entity, by } => {
                    &&& collision.kind == CollisionKind::ColliderCollider
                    &&& first.aabb.aabb_kind == AabbKind::Collider
                    &&& second.aabb.aabb_kind == AabbKind::Collider
                    &&& {
                        ||| {
                            &&& first.aabb.collision_behavior == CollisionBehavior::Player
                            &&& second.aabb.collision_behavior == CollisionBehavior::Static
                            &&& entity == first.entity
                            &&& by == push_out(first.aabb, second.aabb)
                        }
                        ||| {
                            &&& first.aabb.collision_behavior == CollisionBehavior::Static
                            &&& second.aabb.collision_behavior == CollisionBehavior::Player
                            &&& entity == second.entity
                            &&& by == push_out(second.aabb, first.aabb)
                        }
                    }
                },
                _ => true,
            },
            None => true,
        },
{
}

/// The collisions of one volume with those after it are those of the pairs
/// it makes with them.
pub proof fn lemma_collisions_from_are_pairs(entries: Seq<Entry>, i: int, j: int, collision: Collision)
    requires
        0 <= i,
        j <= entries.len(),
    ensures
        collisions_from(entries, i, j).contains(collision) <==> exists|k: int|
            i < k < j && #[trigger] collides_at(entries, i, k, collision),
    decreases j - i,
{
    if j > i + 1 {
        lemma_collisions_from_are_pairs(entries, i, j - 1, collision);
        let earlier = collisions_from(entries, i, j - 1);
        match spec_resolve(entries[i], entries[j - 1]) {
            Some(last) => {
                lemma_seq_contains_after_push(earlier, last, collision);
                if last == collision {
                    assert(collides_at(entries, i, j - 1, collision));
                }
            },
            None => {},
        }
        if exists|k: int| i < k < j && #[trigger] collides_at(entries, i, k, collision) {
            let k = choose|k: int| i < k < j && #[trigger] collides_at(entries, i, k, collision);
            if k < j - 1 {
                assert(collides_at(entries, i, k, collision));
            }
        }
    }
}

/// The collisions of the first `n` volumes are those of the pairs they make
/// with the volumes after them.
pub proof fn lemma_collisions_upto_are_pairs(entries: Seq<Entry>, n: int, collision: Collision)
    requires
        0 <= n <= entries.len(),
    ensures
        collisions_upto(entries, n).contains(collision) <==> exists|i: int, j: int|
            i < n && #[trigger] collides_at(entries, i, j, collision),
    decreases n,
{
    if n > 0 {
        let earlier = collisions_upto(entries, n - 1);
        let row = collisions_from(entries, n - 1, entries.len() as int);
        lemma_collisions_upto_are_pairs(entries, n - 1, collision);
        lemma_collisions_from_are_pairs(entries, n - 1, entries.len() as int, collision);
        lemma_seq_concat_contains_all_elements(earlier, row, collision);
        if earlier.contains(collision) {
            let (i, j) = choose|i: int, j: int|
                i < n - 1 && #[trigger] collides_at(entries, i, j, collision);
            assert(i < n && collides_at(entries, i, j, collision));
        }
        if row.contains(collision) {
            let k = choose|k: int|
                n - 1 < k < entries.len() && #[trigger] collides_at(entries, n - 1, k, collision);
            assert(n - 1 < n && collides_at(entries, n - 1, k, collision));
        }
        if exists|i: int, j: int| i < n && #[trigger] collides_at(entries, i, j, collision) {
            let (i, j) = choose|i: int, j: int|
                i < n && #[trigger] collides_at(entries, i, j, collision);
            if i < n - 1 {
                assert(i < n - 1 && collides_at(entries, i, j, collision));
            } else {
                assert(n - 1 < j < entries.len() && collides_at(entries, n - 1, j, collision));
            }
        }
    }
}

/// The resolver misses no pair and makes none up: a collision is in its
/// answer exactly when two of the listed volumes, the earlier one first,
/// collide in that way.
pub proof fn lemma_all_collisions_are_pairs(entries: Seq<Entry>, collision: Collision)
    ensures
        all_collisions(entries).contains(collision) <==> exists|i: int, j: int|
            #[trigger] collides_at(entries, i, j, collision),
{
    lemma_collisions_upto_are_pairs(entries, entries.len() as int, collision);
    if exists|i: int, j: int| #[trigger] collides_at(entries, i, j, collision) {
        let (i, j) = choose|i: int, j: int| #[trigger] collides_at(entries, i, j, collision);
        assert(i < entries.len() && collides_at(entries, i, j, collision));
    }
}

/// Among volumes of distinct identities one volume collides with each of the
/// others at most once.
pub proof fn lemma_collisions_from_once(entries: Seq<Entry>, i: int, j: int)
    requires
        distinct_uuids(entries),
        0 <= i,
        j <= entries.len(),
    ensures
        collisions_from(entries, i, j).no_duplicates(),
    decreases j - i,
{
    if j > i + 1 {
        lemma_collisions_from_once(entries, i, j - 1);
        let earlier = collisions_from(entries, i, j - 1);
        match spec_resolve(entries[i], entries[j - 1]) {
            Some(last) => {
                assert forall|k: int| 0 <= k < earlier.len() implies earlier[k] != last by {
                    if earlier[k] == last {
                        assert(earlier.contains(last));
                        lemma_collisions_from_are_pairs(entries, i, j - 1, last);
                        let m = choose|m: int|
                            i < m < j - 1 && #[trigger] collides_at(entries, i, m, last);
                        assert(entries[m].uuid == last.second.uuid);
                        assert(entries[j - 1].uuid == last.second.uuid);
                    }
                }
            },
            None => {},
        }
    }
}

/// Among volumes of distinct identities no pair is counted twice.
pub proof fn lemma_collisions_upto_once(entries: Seq<Entry>, n: int)
    requires
        distinct_uuids(entries),
        0 <= n <= entries.len(),
    ensures
        collisions_upto(entries, n).no_duplicates(),
    decreases n,
{
    if n > 0 {
        let earlier = collisions_upto(entries, n - 1);
        let row = collisions_from(entries, n - 1, entries.len() as int);
        lemma_collisions_upto_once(entries, n - 1);
        lemma_collisions_from_once(entries, n - 1, entries.len() as int);
        assert forall|a: int, b: int| 0 <= a < earlier.len() && 0 <= b < row.len() implies earlier[a]
            != row[b] by {
            if earlier[a] == row[b] {
                let collision = row[b];
                assert(earlier.contains(collision));
                assert(row.contains(collision));
                lemma_collisions_upto_are_pairs(entries, n - 1, collision);
                lemma_collisions_from_are_pairs(entries, n - 1, entries.len() as int, collision);
                let (i, j) = choose|i: int, j: int|
                    i < n - 1 && #[trigger] collides_at(entries, i, j, collision);
                let k = choose|k: int|
                    n - 1 < k < entries.len() && #[trigger] collides_at(
                        entries,
                        n - 1,
                        k,
                        collision,
                    );
                assert(entries[i].uuid == collision.first.uuid);
                assert(entries[n - 1].uuid == collision.first.uuid);
            }
        }
        lemma_no_dup_in_concat(earlier, row);
    }
}

/// Each pair is resolved once per frame, not twice: among volumes of distinct
/// identities the resolver's answer holds no collision twice.
pub proof fn lemma_all_collisions_once(entries: Seq<Entry>)
    requires
        distinct_uuids(entries),
    ensures
        all_collisions(entries).no_duplicates(),
{
    lemma_collisions_upto_once(entries, entries.len() as int);
}

/// What is registered under `uuid`, as a listed volume.
pub open spec fn registered(registry: Map<u128, (Entity, AabbComputed)>, uuid: u128) -> Entry {
    Entry { uuid, entity: registry[uuid].0, aabb: registry[uuid].1 }
}

/// The volumes that a registry yields have distinct identities.
pub proof fn lemma_enumeration_is_distinct(
    registry: Map<u128, (Entity, AabbComputed)>,
    order: Seq<Entry>,
)
    requires
        enumerates(order, registry),
    ensures
        distinct_uuids(order),
{
}

/// Whatever the order in which the registry yields its volumes, every
/// collision in the resolver's answer is one of two registered volumes of
/// different identities, as they are registered.
pub proof fn lemma_found_pairs_are_registered(
    registry: Map<u128, (Entity, AabbComputed)>,
    order: Seq<Entry>,
    collision: Collision,
)
    requires
        enumerates(order, registry),
        all_collisions(order).contains(collision),
    ensures
        registry.contains_key(collision.first.uuid),
        registry.contains_key(collision.second.uuid),
        collision.first.uuid != collision.second.uuid,
        collision.first == registered(registry, collision.first.uuid),
        collision.second == registered(registry, collision.second.uuid),
        spec_resolve(collision.first, collision.second) == Some(collision),
{
    lemma_all_collisions_are_pairs(order, collision);
    let (i, j) = choose|i: int, j: int| #[trigger] collides_at(order, i, j, collision);
    assert(collision.first == order[i] && collision.second == order[j]);
    assert(registry.contains_key(order[i].uuid) && registry.contains_key(order[j].uuid));
}

/// Whatever the order in which the registry yields its volumes, the
/// resolver's answer holds the collision of every two registered volumes that
/// collide, seen from one of the two.
pub proof fn lemma_registered_pairs_are_found(
    registry: Map<u128, (Entity, AabbComputed)>,
    order: Seq<Entry>,
    a: u128,
    b: u128,
)
    requires
        enumerates(order, registry),
        registry.contains_key(a),
        registry.contains_key(b),
        a != b,
        spec_resolve(registered(registry, a), registered(registry, b)) is Some,
    ensures
        ({
            let collision = spec_resolve(registered(registry, a), registered(registry, b)).unwrap();
            ||| all_collisions(order).contains(collision)
            ||| all_collisions(order).contains(swapped(collision))
        }),
{
    let first = registered(registry, a);
    let second = registered(registry, b);
    let collision = spec_resolve(first, second).unwrap();
    let i = choose|i: int| 0 <= i < order.len() && (#[trigger] order[i]).uuid == a;
    let j = choose|j: int| 0 <= j < order.len() && (#[trigger] order[j]).uuid == b;
    assert(registry.contains_key(order[i].uuid) && registry.contains_key(order[j].uuid));
    assert(order[i] == first && order[j] == second);
    if i < j {
        assert(collides_at(order, i, j, collision));
        lemma_all_collisions_are_pairs(order, collision);
    } else {
        lemma_resolve_symmetric(first, second);
        assert(collides_at(order, j, i, swapped(collision)));
        lemma_all_collisions_are_pairs(order, swapped(collision));
    }
}

/// A frame in which no transform changed leaves the registry as it was.
pub proof fn lemma_refreshed_without_change(
    registry: Map<u128, (Entity, AabbComputed)>,
    states: Seq<AabbState>,
)
    requires
        forall|i: int| 0 <= i < states.len() ==> !(#[trigger] states[i]).changed,
    ensures
        refreshed(registry, states) == registry,
    decreases states.len(),
{
    if states.len() > 0 {
        lemma_refreshed_without_change(registry, states.drop_last());
    }
}

/// The refresh leaves alone every identity that no changed volume bears.
pub proof fn lemma_refreshed_keeps_others(
    registry: Map<u128, (Entity, AabbComputed)>,
    states: Seq<AabbState>,
    uuid: u128,
)
    requires
        forall|i: int|
            0 <= i < states.len() && (#[trigger] states[i]).changed ==> states[i].aabb.uuid()
                != uuid,
    ensures
        refreshed(registry, states).contains_key(uuid) == registry.contains_key(uuid),
        registry.contains_key(uuid) ==> refreshed(registry, states)[uuid] == registry[uuid],
    decreases states.len(),
{
    if states.len() > 0 {
        lemma_refreshed_keeps_others(registry, states.drop_last(), uuid);
    }
}

/// After the refresh a changed volume is registered with its owner and with
/// the bounds around its present translation, unless a later changed volume
/// bears the same identity.
pub proof fn lemma_refreshed_registers_changed(
    registry: Map<u128, (Entity, AabbComputed)>,
    states: Seq<AabbState>,
    i: int,
)
    requires
        0 <= i < states.len(),
        states[i].changed,
        forall|j: int|
            i < j < states.len() && (#[trigger] states[j]).changed ==> states[j].aabb.uuid()
                != states[i].aabb.uuid(),
    ensures
        refreshed(registry, states).contains_key(states[i].aabb.uuid()),
        refreshed(registry, states)[states[i].aabb.uuid()] == states[i].entry(),
    decreases states.len(),
{
    if i < states.len() - 1 {
        lemma_refreshed_registers_changed(registry, states.drop_last(), i);
    }
}

/// When the owner of a volume moves, its bounds move with it: the bounds
/// around the new translation are the old bounds moved by as much.
pub proof fn lemma_bounds_follow_owner(
    aabb: Aabb,
    from: Vec2,
    to: Vec2,
    aabb_kind: AabbKind,
    collision_behavior: CollisionBehavior,
)
    requires
        aabb.wf(),
        from.in_world(),
        to.in_world(),
    ensures
        aabb.computed(to, aabb_kind, collision_behavior) == aabb.computed(
            from,
            aabb_kind,
            collision_behavior,
        ).translated((to.x - from.x, to.y - from.y)),
{
}

} // verus!
