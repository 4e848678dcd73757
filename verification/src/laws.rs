//! What holds of the overlap test, of the displacement and of the resolver,
//! for all volumes.

use vstd::prelude::*;
use vstd::arithmetic::power2::{
    lemma2_to64, lemma2_to64_rest, lemma_pow2_pos, lemma_pow2_strictly_increases,
    lemma_pow2_unfold, pow2,
};
use crate::computed::{half, magnitude, AabbComputed};
use crate::kinds::{spec_classify, Entity};
use crate::vec2::WORLD_LIMIT;

verus! {

/// The overlap test does not depend on the order of the two volumes.
pub proof fn lemma_intersects_symmetric(
    a: AabbComputed,
    b: AabbComputed,
    a_ent: Entity,
    b_ent: Entity,
)
    ensures
        a.spec_intersects(b, a_ent, b_ent) == b.spec_intersects(a, b_ent, a_ent),
{
}

/// Two volumes of one owner never overlap, whatever their geometry.
pub proof fn lemma_same_owner_never_intersects(a: AabbComputed, b: AabbComputed, owner: Entity)
    ensures
        a.spec_intersects(b, owner, owner) is None,
{
}

/// Boxes that lie apart on either axis do not overlap.
pub proof fn lemma_separated_never_intersect(
    a: AabbComputed,
    b: AabbComputed,
    a_ent: Entity,
    b_ent: Entity,
)
    requires
        a.max.x < b.min.x || b.max.x < a.min.x || a.max.y < b.min.y || b.max.y < a.min.y,
    ensures
        a.spec_intersects(b, a_ent, b_ent) is None,
{
}

/// Boxes of different owners that share a face on one axis and meet on the
/// other overlap: the bounds are inclusive.
pub proof fn lemma_touching_boxes_intersect(
    a: AabbComputed,
    b: AabbComputed,
    a_ent: Entity,
    b_ent: Entity,
)
    requires
        a.wf(),
        b.wf(),
        a_ent != b_ent,
        ({
            ||| (a.max.x == b.min.x || a.min.x == b.max.x) && a.overlaps_y(b)
            ||| (a.max.y == b.min.y || a.min.y == b.max.y) && a.overlaps_x(b)
        }),
    ensures
        a.spec_intersects(b, a_ent, b_ent) == Some(spec_classify(a.aabb_kind, b.aabb_kind)),
{
}

/// The displacement runs along one axis only: the other component is zero.
/// When both axes are equally shallow the move is vertical.
pub proof fn lemma_displacement_single_axis(a: AabbComputed, b: AabbComputed)
    ensures
        a.displacement(b).0 == 0 || a.displacement(b).1 == 0,
        a.moves_horizontally(b) ==> a.displacement(b).1 == 0,
        !a.moves_horizontally(b) ==> a.displacement(b).0 == 0,
        magnitude(a.horizontal(b)) == magnitude(a.vertical(b)) ==> a.displacement(b).0 == 0,
{
}

/// The penetration is the least magnitude among the four separations.
pub proof fn lemma_penetration_is_least(a: AabbComputed, b: AabbComputed)
    ensures
        a.penetration(b) <= magnitude(a.left(b)),
        a.penetration(b) <= magnitude(a.right(b)),
        a.penetration(b) <= magnitude(a.up(b)),
        a.penetration(b) <= magnitude(a.down(b)),
        ({
            ||| a.penetration(b) == magnitude(a.left(b))
            ||| a.penetration(b) == magnitude(a.right(b))
            ||| a.penetration(b) == magnitude(a.up(b))
            ||| a.penetration(b) == magnitude(a.down(b))
        }),
        a.penetration(b) >= 0,
{
}

/// Taking half of a separation off leaves at most half of it.
pub proof fn lemma_half_leaves_half(v: int)
    ensures
        2 * magnitude(v - half(v)) <= magnitude(v),
        magnitude(half(v)) <= magnitude(v),
        v >= 0 ==> 0 <= half(v) <= v,
        v <= 0 ==> v <= half(v) <= 0,
{
}

/// One displacement at least halves the penetration: what is left of it
/// after the move is no more than half of what it was.
pub proof fn lemma_displacement_halves_penetration(a: AabbComputed, b: AabbComputed)
    requires
        a.wf(),
        b.wf(),
    ensures
        2 * a.translated(a.displacement(b)).penetration(b) <= a.penetration(b),
{
    let moved = a.translated(a.displacement(b));
    lemma_half_leaves_half(a.horizontal(b));
    lemma_half_leaves_half(a.vertical(b));
    lemma_penetration_is_least(moved, b);
}

/// A displacement never parts two overlapping boxes: they still overlap, or
/// touch, after it.
pub proof fn lemma_displacement_keeps_overlap(a: AabbComputed, b: AabbComputed)
    requires
        a.wf(),
        b.wf(),
        a.overlaps(b),
    ensures
        a.translated(a.displacement(b)).overlaps(b),
{
    lemma_half_leaves_half(a.horizontal(b));
    lemma_half_leaves_half(a.vertical(b));
}

/// Boxes that only touch are left where they are.
pub proof fn lemma_no_penetration_no_displacement(a: AabbComputed, b: AabbComputed)
    requires
        a.penetration(b) == 0,
    ensures
        a.displacement(b) == (0int, 0int),
        a.translated(a.displacement(b)) == a,
{
}

/// The box `a` after the given number of frames, in each of which it is
/// displaced once out of `b`, which stays where it is.
pub open spec fn settled(a: AabbComputed, b: AabbComputed, frames: nat) -> AabbComputed
    decreases frames,
{
    if frames == 0 {
        a
    } else {
        settled(a.translated(a.displacement(b)), b, (frames - 1) as nat)
    }
}

/// `a` is a box no larger than the world allows that overlaps the well-formed
/// box `b`. Unlike well-formedness this is kept by every displacement out of
/// `b`.
pub open spec fn lodged(a: AabbComputed, b: AabbComputed) -> bool {
    &&& b.wf()
    &&& 0 <= a.max.x - a.min.x <= 4 * WORLD_LIMIT
    &&& 0 <= a.max.y - a.min.y <= 4 * WORLD_LIMIT
    &&& a.overlaps(b)
}

/// One displacement of a lodged box leaves it lodged, of the same size and
/// tags, and at most half as deep in the other.
pub proof fn lemma_lodged_step(a: AabbComputed, b: AabbComputed)
    requires
        lodged(a, b),
    ensures
        lodged(a.translated(a.displacement(b)), b),
        2 * a.translated(a.displacement(b)).penetration(b) <= a.penetration(b),
        a.translated(a.displacement(b)).max.x - a.translated(a.displacement(b)).min.x == a.max.x
            - a.min.x,
        a.translated(a.displacement(b)).max.y - a.translated(a.displacement(b)).min.y == a.max.y
            - a.min.y,
        a.translated(a.displacement(b)).aabb_kind == a.aabb_kind,
        a.translated(a.displacement(b)).collision_behavior == a.collision_behavior,
{
    let moved = a.translated(a.displacement(b));
    lemma_half_leaves_half(a.horizontal(b));
    lemma_half_leaves_half(a.vertical(b));
    lemma_penetration_is_least(moved, b);
}

/// Frame after frame a lodged box stays lodged and keeps its size and tags,
/// while its penetration falls by half or more each time.
pub proof fn lemma_lodged_settles(a: AabbComputed, b: AabbComputed, frames: nat)
    requires
        lodged(a, b),
    ensures
        lodged(settled(a, b, frames), b),
        pow2(frames) * settled(a, b, frames).penetration(b) <= a.penetration(b),
        settled(a, b, frames).max.x - settled(a, b, frames).min.x == a.max.x - a.min.x,
        settled(a, b, frames).max.y - settled(a, b, frames).min.y == a.max.y - a.min.y,
        settled(a, b, frames).aabb_kind == a.aabb_kind,
        settled(a, b, frames).collision_behavior == a.collision_behavior,
    decreases frames,
{
    if frames == 0 {
        lemma2_to64();
    } else {
        let moved = a.translated(a.displacement(b));
        let rest = (frames - 1) as nat;
        lemma_lodged_step(a, b);
        lemma_lodged_settles(moved, b, rest);
        lemma_pow2_unfold(frames);
        let depth = settled(a, b, frames).penetration(b);
        assert(pow2(frames) * depth == 2 * (pow2(rest) * depth)) by (nonlinear_arith)
            requires
                pow2(frames) == 2 * pow2(rest),
        ;
    }
}

/// Resolution converges: when a box that overlaps another is displaced out of
/// it frame after frame, with nothing else moving, the two never part and
/// never swap sides, and after `frames` frames the penetration is at most
/// the `2^frames`-th part of what it was.
pub proof fn lemma_resolution_converges(a: AabbComputed, b: AabbComputed, frames: nat)
    requires
        a.wf(),
        b.wf(),
        a.overlaps(b),
    ensures
        settled(a, b, frames).overlaps(b),
        pow2(frames) * settled(a, b, frames).penetration(b) <= a.penetration(b),
        0 <= settled(a, b, frames).penetration(b) <= a.penetration(b),
{
    lemma_lodged_settles(a, b, frames);
    lemma_penetration_is_least(settled(a, b, frames), b);
    let depth = settled(a, b, frames).penetration(b);
    lemma_pow2_pos(frames);
    assert(depth <= pow2(frames) * depth) by (nonlinear_arith)
        requires
            pow2(frames) >= 1,
            depth >= 0,
    ;
}

/// Resolution comes to rest: after 63 frames an overlapping pair only
/// touches, and from then on nothing moves any more.
pub proof fn lemma_resolution_comes_to_rest(a: AabbComputed, b: AabbComputed, frames: nat)
    requires
        a.wf(),
        b.wf(),
        a.overlaps(b),
        frames >= 63,
    ensures
        settled(a, b, frames).penetration(b) == 0,
        settled(a, b, frames).overlaps(b),
        settled(a, b, frames + 1) == settled(a, b, frames),
    decreases frames,
{
    lemma_resolution_converges(a, b, frames);
    lemma_penetration_is_least(a, b);
    let depth = settled(a, b, frames).penetration(b);
    assert(depth == 0) by {
        lemma2_to64_rest();
        if frames > 63 {
            lemma_pow2_strictly_increases(63, frames);
        }
        assert(depth < 1) by (nonlinear_arith)
            requires
                pow2(frames) * depth <= 0x4000_0000_0000_0000,
                pow2(frames) >= 0x8000_0000_0000_0000,
                depth >= 0,
        ;
    }
    lemma_settled_one_more(a, b, frames);
}

/// A further frame displaces what the frames before it have left.
pub proof fn lemma_settled_one_more(a: AabbComputed, b: AabbComputed, frames: nat)
    ensures
        settled(a, b, frames + 1) == settled(a, b, frames).translated(
            settled(a, b, frames).displacement(b),
        ),
    decreases frames,
{
    if frames == 0 {
        assert(settled(a, b, 1) == settled(a.translated(a.displacement(b)), b, 0));
    } else {
        let moved = a.translated(a.displacement(b));
        lemma_settled_one_more(moved, b, (frames - 1) as nat);
    }
}

} // verus!
