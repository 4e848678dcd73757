//! Bounding volumes as they are attached to an entity: a validated local
//! half-extent under a stable identity, and the bundle of tags that goes with
//! it.

use vstd::prelude::*;
use crate::computed::AabbComputed;
use crate::kinds::{AabbKind, CollisionBehavior};
use crate::vec2::{Vec2, MAX_EXTENT, SCALE, WORLD_LIMIT};

verus! {

/// Why a half-extent cannot make a volume.
#[derive(Clone, Copy, Debug, PartialEq, Eq, Structural)]
pub enum AabbError {
    /// A component of the half-extent is zero or negative.
    Degenerate,
    /// A component of the half-extent exceeds [`MAX_EXTENT`].
    Oversized,
}

/// The fault in a local half-extent, if it has one. A degenerate extent is
/// reported as such even when its other component is too large.
pub open spec fn extents_error(extents: Vec2) -> Option<AabbError> {
    if extents.x <= 0 || extents.y <= 0 {
        Some(AabbError::Degenerate)
    } else if extents.x > MAX_EXTENT || extents.y > MAX_EXTENT {
        Some(AabbError::Oversized)
    } else {
        None
    }
}

/// The bits that mark a 128-bit number as a random (version 4) UUID of the
/// RFC 4122 variant: the high nibble of its seventh byte is 4, the two high
/// bits of its ninth byte are `10`.
pub open spec fn is_random_uuid(uuid: u128) -> bool {
    (uuid >> 76) & 0xf == 4 && (uuid >> 62) & 0x3 == 2
}

/// Draws a fresh identity with `uuid::Uuid::new_v4` and hands it out as the
/// number `Uuid::as_u128` makes of it, first byte highest. The bytes are
/// random; only the version and variant bits that `new_v4` sets are claimed.
/// `new_v4` panics when the operating system yields no random bytes.
#[verifier::external_body]
fn random_uuid() -> (uuid: u128)
    ensures
        is_random_uuid(uuid),
{
    uuid::Uuid::new_v4().as_u128()
}

/// An axis-aligned box around its owner, given by its half-extent in local
/// units. Every value has a half-extent that is positive and at most
/// [`MAX_EXTENT`] on both axes.
#[derive(Clone, Copy, Debug)]
pub struct Aabb {
    uuid: u128,
    extents: Vec2,
}

impl Aabb {
    /// Identity of the volume.
    pub closed spec fn spec_uuid(&self) -> u128 {
        self.uuid
    }

    /// Half-extent in local units.
    pub closed spec fn spec_local_extents(&self) -> Vec2 {
        self.extents
    }

    #[verifier::type_invariant]
    pub open spec fn wf(&self) -> bool {
        extents_error(self.spec_local_extents()) is None
    }

    /// Half-extent in world units: the local one times [`SCALE`], halved.
    pub open spec fn spec_extents(&self) -> Vec2 {
        Vec2 {
            x: (self.spec_local_extents().x * SCALE / 2) as i64,
            y: (self.spec_local_extents().y * SCALE / 2) as i64,
        }
    }

    /// The bounds of the volume when its owner stands at `translation`.
    pub open spec fn spec_computed(
        &self,
        translation: Vec2,
        aabb_kind: AabbKind,
        collision_behavior: CollisionBehavior,
    ) -> AabbComputed {
        AabbComputed {
            min: Vec2 {
                x: (translation.x - self.spec_extents().x) as i64,
                y: (translation.y - self.spec_extents().y) as i64,
            },
            max: Vec2 {
                x: (translation.x + self.spec_extents().x) as i64,
                y: (translation.y + self.spec_extents().y) as i64,
            },
            aabb_kind,
            collision_behavior,
        }
    }

    /// Makes a volume of the given identity, or says what is wrong with the
    /// half-extent.
    pub fn new(uuid: u128, extents: Vec2) -> (made: Result<Aabb, AabbError>)
        ensures
            match made {
                Ok(aabb) => {
                    &&& extents_error(extents) is None
                    &&& aabb.wf()
                    &&& aabb.uuid() == uuid
                    &&& aabb.local_extents() == extents
                },
                Err(e) => extents_error(extents) == Some(e),
            },
    {
        if extents.x <= 0 || extents.y <= 0 {
            Err(AabbError::Degenerate)
        } else if extents.x > MAX_EXTENT || extents.y > MAX_EXTENT {
            Err(AabbError::Oversized)
        } else {
            Ok(Aabb { uuid, extents })
        }
    }

    #[verifier::when_used_as_spec(spec_uuid)]
    pub fn uuid(&self) -> (uuid: u128)
        ensures
            uuid == self.spec_uuid(),
    {
        self.uuid
    }

    #[verifier::when_used_as_spec(spec_local_extents)]
    pub fn local_extents(&self) -> (extents: Vec2)
        ensures
            extents == self.spec_local_extents(),
            self.wf(),
    {
        proof {
            use_type_invariant(self);
        }
        self.extents
    }

    /// Half-extent in world units.
    #[verifier::when_used_as_spec(spec_extents)]
    pub fn extents(&self) -> (extents: Vec2)
        ensures
            extents == self.spec_extents(),
            extents.x == 2 * self.local_extents().x,
            extents.y == 2 * self.local_extents().y,
            0 < extents.x <= WORLD_LIMIT,
            0 < extents.y <= WORLD_LIMIT,
    {
        proof {
            use_type_invariant(self);
        }
        Vec2::new(self.extents.x * SCALE / 2, self.extents.y * SCALE / 2)
    }

    /// World-space bounds of the volume around `translation`: the position
    /// less the scaled half-extent, and the position plus it.
    #[verifier::when_used_as_spec(spec_computed)]
    pub fn computed(
        &self,
        translation: Vec2,
        aabb_kind: AabbKind,
        collision_behavior: CollisionBehavior,
    ) -> (bounds: AabbComputed)
        requires
            translation.in_world(),
        ensures
            bounds == self.spec_computed(translation, aabb_kind, collision_behavior),
            bounds.wf(),
            bounds.min.x == translation.x - self.extents().x,
            bounds.min.y == translation.y - self.extents().y,
            bounds.max.x == translation.x + self.extents().x,
            bounds.max.y == translation.y + self.extents().y,
            bounds.aabb_kind == aabb_kind,
            bounds.collision_behavior == collision_behavior,
    {
        let extents = self.extents();
        AabbComputed {
            min: Vec2::new(translation.x - extents.x, translation.y - extents.y),
            max: Vec2::new(translation.x + extents.x, translation.y + extents.y),
            aabb_kind,
            collision_behavior,
        }
    }
}

/// A volume with its tags and the visibility of its debug outline, as it is
/// attached to an entity.
#[derive(Clone, Copy, Debug)]
pub struct AabbBundle {
    pub aabb: Aabb,
    pub aabb_kind: AabbKind,
    pub collision_behavior: CollisionBehavior,
    pub visible: bool,
}

impl AabbBundle {
    /// What a bundle holds when it has just been made of these parts.
    pub open spec fn made_of(
        self,
        uuid: u128,
        extents: Vec2,
        aabb_kind: AabbKind,
        collision_behavior: CollisionBehavior,
    ) -> bool {
        &&& self.aabb.wf()
        &&& self.aabb.uuid() == uuid
        &&& self.aabb.local_extents() == extents
        &&& self.aabb_kind == aabb_kind
        &&& self.collision_behavior == collision_behavior
        &&& self.visible
    }

    /// The bundle for a volume of the given identity. Its outline starts
    /// visible.
    pub fn with_uuid(
        uuid: u128,
        extents: Vec2,
        aabb_kind: AabbKind,
        collision_behavior: CollisionBehavior,
    ) -> (made: Result<AabbBundle, AabbError>)
        ensures
            match made {
                Ok(bundle) => {
                    &&& extents_error(extents) is None
                    &&& bundle.made_of(uuid, extents, aabb_kind, collision_behavior)
                },
                Err(e) => extents_error(extents) == Some(e),
            },
    {
        match Aabb::new(uuid, extents) {
            Ok(aabb) => Ok(AabbBundle { aabb, aabb_kind, collision_behavior, visible: true }),
            Err(e) => Err(e),
        }
    }

    /// The bundle for a new volume, under a freshly drawn random identity.
    pub fn new(extents: Vec2, aabb_kind: AabbKind, collision_behavior: CollisionBehavior) -> (made:
        Result<AabbBundle, AabbError>)
        ensures
            match made {
                Ok(bundle) => {
                    &&& extents_error(extents) is None
                    &&& is_random_uuid(bundle.aabb.uuid())
                    &&& bundle.made_of(bundle.aabb.uuid(), extents, aabb_kind, collision_behavior)
                },
                Err(e) => extents_error(extents) == Some(e),
            },
    {
        let uuid = random_uuid();
        AabbBundle::with_uuid(uuid, extents, aabb_kind, collision_behavior)
    }
}

/// Flips the visibility of every debug outline when the toggle has just been
/// pressed, and leaves everything as it is when it has not.
pub fn toggle_debug_render(just_pressed: bool, bundles: &mut Vec<AabbBundle>)
    ensures
        final(bundles)@.len() == old(bundles)@.len(),
        forall|i: int|
            #![trigger final(bundles)@[i]]
            0 <= i < old(bundles)@.len() ==> {
                &&& final(bundles)@[i].aabb == old(bundles)@[i].aabb
                &&& final(bundles)@[i].aabb_kind == old(bundles)@[i].aabb_kind
                &&& final(bundles)@[i].collision_behavior == old(bundles)@[i].collision_behavior
                &&& final(bundles)@[i].visible == (old(bundles)@[i].visible != just_pressed)
            },
{
    if just_pressed {
        let mut i: usize = 0;
        while i < bundles.len()
            invariant
                i <= bundles@.len(),
                bundles@.len() == old(bundles)@.len(),
                forall|k: int|
                    #![trigger bundles@[k]]
                    0 <= k < i ==> {
                        &&& bundles@[k].aabb == old(bundles)@[k].aabb
                        &&& bundles@[k].aabb_kind == old(bundles)@[k].aabb_kind
                        &&& bundles@[k].collision_behavior == old(bundles)@[k].collision_behavior
                        &&& bundles@[k].visible == !old(bundles)@[k].visible
                    },
                forall|k: int|
                    #![trigger bundles@[k]]
                    i <= k < bundles@.len() ==> bundles@[k] == old(bundles)@[k],
            decreases bundles@.len() - i,
        {
            let mut bundle = bundles[i];
            bundle.visible = !bundle.visible;
            bundles.set(i, bundle);
            i += 1;
        }
    }
}

} // verus!
