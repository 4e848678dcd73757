//! The registry of computed bounds, refreshed once per frame.

use std::collections::HashMap;
use vstd::prelude::*;
use vstd::std_specs::iter::IteratorSpec;
use crate::aabb::Aabb;
use crate::computed::AabbComputed;
use crate::kinds::{AabbKind, CollisionBehavior, Entity};
use crate::vec2::Vec2;

verus! {

broadcast use vstd::std_specs::hash::group_hash_axioms;

/// One registered volume: its identity, its owner and its current bounds.
#[derive(Clone, Copy, Debug, PartialEq, Eq, Structural)]
pub struct Entry {
    pub uuid: u128,
    pub entity: Entity,
    pub aabb: AabbComputed,
}

/// `order` lists each volume of `registry` once, with what is registered
/// for it.
pub open spec fn enumerates(order: Seq<Entry>, registry: Map<u128, (Entity, AabbComputed)>) -> bool {
    &&& forall|i: int|
        0 <= i < order.len() ==> {
            &&& registry.contains_key(#[trigger] order[i].uuid)
            &&& registry[order[i].uuid] == (order[i].entity, order[i].aabb)
        }
    &&& forall|i: int, j: int|
        0 <= i < j < order.len() ==> (#[trigger] order[i]).uuid != (#[trigger] order[j]).uuid
    &&& forall|uuid: u128|
        registry.contains_key(uuid) ==> exists|i: int|
            0 <= i < order.len() && (#[trigger] order[i]).uuid == uuid
}

/// The current-frame snapshot: for each volume, by identity, its owner and its
/// bounds. Every box in it is well formed.
pub struct CollisionWorld {
    aabbs: HashMap<u128, (Entity, AabbComputed)>,
}

impl View for CollisionWorld {
    type V = Map<u128, (Entity, AabbComputed)>;

    closed spec fn view(&self) -> Map<u128, (Entity, AabbComputed)> {
        self.aabbs@
    }
}

impl CollisionWorld {
    #[verifier::type_invariant]
    pub open spec fn wf(&self) -> bool {
        forall|uuid: u128| self@.contains_key(uuid) ==> (#[trigger] self@[uuid]).1.wf()
    }

    /// An empty registry.
    pub fn new() -> (world: CollisionWorld)
        ensures
            world@ == Map::<u128, (Entity, AabbComputed)>::empty(),
            world.wf(),
    {
        CollisionWorld { aabbs: HashMap::new() }
    }

    /// Number of registered volumes.
    pub fn len(&self) -> (n: usize)
        ensures
            n == self@.len(),
    {
        self.aabbs.len()
    }

    /// Owner and bounds registered for `uuid`, if any.
    pub fn get(&self, uuid: u128) -> (found: Option<(Entity, AabbComputed)>)
        ensures
            found == (if self@.contains_key(uuid) {
                Some(self@[uuid])
            } else {
                None
            }),
            found matches Some(entry) ==> entry.1.wf(),
    {
        proof {
            use_type_invariant(self);
            assert(self@.contains_key(uuid) ==> self@[uuid].1.wf());
        }
        match self.aabbs.get(&uuid) {
            Some(entry) => Some(*entry),
            None => None,
        }
    }

    /// Takes the map out of the registry and leaves an empty one in its
    /// place, so that it can be changed and put back.
    fn take(&mut self) -> (aabbs: HashMap<u128, (Entity, AabbComputed)>)
        ensures
            aabbs@ == old(self)@,
            forall|uuid: u128| aabbs@.contains_key(uuid) ==> (#[trigger] aabbs@[uuid]).1.wf(),
    {
        proof {
            use_type_invariant(&*self);
        }
        let mut aabbs: HashMap<u128, (Entity, AabbComputed)> = HashMap::new();
        core::mem::swap(&mut self.aabbs, &mut aabbs);
        aabbs
    }

    /// Puts a map of well-formed boxes in the place of the registry's own.
    fn put(&mut self, aabbs: HashMap<u128, (Entity, AabbComputed)>)
        requires
            forall|uuid: u128| aabbs@.contains_key(uuid) ==> (#[trigger] aabbs@[uuid]).1.wf(),
        ensures
            final(self)@ == aabbs@,
    {
        let mut aabbs = aabbs;
        core::mem::swap(&mut self.aabbs, &mut aabbs);
    }

    /// Registers `aabb` for `uuid` under the owner `entity`, in place of
    /// whatever was registered for it.
    pub fn insert(&mut self, uuid: u128, entity: Entity, aabb: AabbComputed)
        requires
            aabb.wf(),
        ensures
            final(self)@ == old(self)@.insert(uuid, (entity, aabb)),
            final(self).wf(),
    {
        let mut aabbs = self.take();
        aabbs.insert(uuid, (entity, aabb));
        self.put(aabbs);
        proof {
            use_type_invariant(&*self);
        }
    }

    /// Drops whatever is registered for `uuid`, and hands it back. This is
    /// for volumes whose owner is gone; the refresh never drops anything.
    pub fn remove(&mut self, uuid: u128) -> (removed: Option<(Entity, AabbComputed)>)
        ensures
            final(self)@ == old(self)@.remove(uuid),
            removed == (if old(self)@.contains_key(uuid) {
                Some(old(self)@[uuid])
            } else {
                None
            }),
            final(self).wf(),
    {
        let mut aabbs = self.take();
        let removed = aabbs.remove(&uuid);
        self.put(aabbs);
        proof {
            use_type_invariant(&*self);
        }
        removed
    }

    /// The registered volumes, each once, in the order in which the map
    /// happens to yield them.
    pub fn entries(&self) -> (order: Vec<Entry>)
        ensures
            enumerates(order@, self@),
            order@.len() == self@.len(),
            forall|i: int| 0 <= i < order@.len() ==> (#[trigger] order@[i]).aabb.wf(),
    {
        proof {
            use_type_invariant(self);
        }
        let mut order: Vec<Entry> = Vec::new();
        for pair in it: self.aabbs.iter()
            invariant
                it.seq() == self.aabbs.iter().remaining(),
                it.seq().no_duplicates(),
                order@.len() == it.index(),
                forall|i: int|
                    0 <= i < order@.len() ==> {
                        &&& (#[trigger] order@[i]).uuid == *it.seq()[i].0
                        &&& order@[i].entity == (*it.seq()[i].1).0
                        &&& order@[i].aabb == (*it.seq()[i].1).1
                    },
        {
            let (uuid, entry) = pair;
            order.push(Entry { uuid: *uuid, entity: entry.0, aabb: entry.1 });
        }
        proof {
            let yielded = self.aabbs.iter().remaining();
            let registry = self@;
            assert forall|i: int| 0 <= i < order@.len() implies {
                &&& registry.contains_key(#[trigger] order@[i].uuid)
                &&& registry[order@[i].uuid] == (order@[i].entity, order@[i].aabb)
                &&& order@[i].aabb.wf()
            } by {
                assert(registry[*yielded[i].0] == *yielded[i].1);
            }
            assert forall|i: int, j: int| 0 <= i < j < order@.len() implies (#[trigger] order@[i]).uuid
                != (#[trigger] order@[j]).uuid by {
                // One identity in two places would be one pair yielded twice.
                if order@[i].uuid == order@[j].uuid {
                    assert(registry[*yielded[i].0] == *yielded[i].1);
                    assert(registry[*yielded[j].0] == *yielded[j].1);
                    assert(yielded[i] == yielded[j]);
                }
            }
            assert forall|uuid: u128| registry.contains_key(uuid) implies exists|i: int|
                0 <= i < order@.len() && (#[trigger] order@[i]).uuid == uuid by {
                assert(yielded.contains((&uuid, &registry[uuid])));
                let i = choose|i: int|
                    0 <= i < yielded.len() && yielded[i] == (&uuid, &registry[uuid]);
                assert(order@[i].uuid == uuid);
            }
        }
        order
    }
}

impl Default for CollisionWorld {
    fn default() -> (world: CollisionWorld)
        ensures
            world@ == Map::<u128, (Entity, AabbComputed)>::empty(),
            world.wf(),
    {
        CollisionWorld::new()
    }
}

/// What a frame knows of one volume: its owner, its tags, where the owner
/// stands in the world, and whether that has changed since the last frame.
#[derive(Clone, Copy, Debug)]
pub struct AabbState {
    pub parent: Entity,
    pub aabb: Aabb,
    pub aabb_kind: AabbKind,
    pub collision_behavior: CollisionBehavior,
    pub translation: Vec2,
    pub changed: bool,
}

impl AabbState {
    /// What the registry holds for the volume once it has been refreshed.
    pub open spec fn entry(self) -> (Entity, AabbComputed) {
        (self.parent, self.aabb.computed(self.translation, self.aabb_kind, self.collision_behavior))
    }
}

/// The registry after a frame's refresh: one after the other, each volume
/// whose transform changed is registered anew under its identity, with bounds
/// around its present translation. Volumes that did not change keep what was
/// registered for them.
pub open spec fn refreshed(
    registry: Map<u128, (Entity, AabbComputed)>,
    states: Seq<AabbState>,
) -> Map<u128, (Entity, AabbComputed)>
    decreases states.len(),
{
    if states.len() == 0 {
        registry
    } else {
        let earlier = refreshed(registry, states.drop_last());
        let state = states.last();
        if state.changed {
            earlier.insert(state.aabb.uuid(), state.entry())
        } else {
            earlier
        }
    }
}

/// Refreshes the registry for a frame: recomputes the bounds of every volume
/// whose transform changed and registers them under the volume's identity,
/// over whatever was there. Nothing else in the registry changes.
pub fn updated_computed_aabbs(collision_world: &mut CollisionWorld, states: &Vec<AabbState>)
    requires
        forall|i: int|
            0 <= i < states@.len() && (#[trigger] states@[i]).changed
                ==> states@[i].translation.in_world(),
    ensures
        final(collision_world)@ == refreshed(old(collision_world)@, states@),
        final(collision_world).wf(),
{
    let mut i: usize = 0;
    while i < states.len()
        invariant
            i <= states@.len(),
            collision_world@ == refreshed(old(collision_world)@, states@.take(i as int)),
            forall|k: int|
                0 <= k < states@.len() && (#[trigger] states@[k]).changed
                    ==> states@[k].translation.in_world(),
        decreases states@.len() - i,
    {
        let state = states[i];
        proof {
            assert(states@.take(i + 1).drop_last() == states@.take(i as int));
        }
        if state.changed {
            let aabb_computed = state.aabb.computed(
                state.translation,
                state.aabb_kind,
                state.collision_behavior,
            );
            collision_world.insert(state.aabb.uuid(), state.parent, aabb_computed);
        }
        i += 1;
    }
    proof {
        assert(states@.take(states@.len() as int) == states@);
        use_type_invariant(&*collision_world);
    }
}

} // verus!
