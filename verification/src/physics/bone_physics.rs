//! What a bone does to its two points, and when a joint breaks.

use vstd::prelude::*;
use crate::ieee::{
    difference, difference_spec, is_zero, is_zero_spec, lt, lt_spec, product_spec, quotient_spec,
    soft_product, soft_quotient, HALF, ZERO,
};
use crate::rider::{Bone, BoneType, Entity, EntityView, Joint, POINT_COUNT};
use crate::vector::Vector2D;

verus! {

/// The share of the distance between its ends by which a bone moves each
/// end towards the other: `(length - rest) / length * 0.5`, and zero when
/// the ends coincide.
pub open spec fn bone_pull_spec(rest_length: u64, length: u64) -> u64 {
    if is_zero_spec(length) {
        ZERO
    } else {
        product_spec(quotient_spec(difference_spec(length, rest_length), length), HALF)
    }
}

/// The pull at which a mount bone breaks: `endurance * rest * 0.5`.
pub open spec fn break_limit_spec(endurance: u64, rest_length: u64) -> u64 {
    product_spec(product_spec(endurance, rest_length), HALF)
}

/// Whether the bone leaves its ends where they are: a mount bone once the
/// body has broken, and a repelling bone whose ends are not closer than its
/// rest length.
pub open spec fn bone_idle_spec(bone: Bone, length: u64, broken: bool) -> bool {
    match bone.bone_type {
        BoneType::Mount { endurance } => broken,
        BoneType::Repel => !lt_spec(length, bone.rest_length),
        BoneType::Rigid => false,
    }
}

/// Whether the bone breaks: a mount bone, while the body is whole, whose pull
/// exceeds its limit.
pub open spec fn bone_breaks_spec(bone: Bone, length: u64, broken: bool) -> bool {
    match bone.bone_type {
        BoneType::Mount { endurance } => !broken && lt_spec(
            break_limit_spec(endurance, bone.rest_length),
            bone_pull_spec(bone.rest_length, length),
        ),
        _ => false,
    }
}

/// Where a bone puts its two ends, which stand at `a` and `b`; `None` when it
/// breaks. An idle bone leaves them. Any other moves each end by the pull
/// times the vector from `b` to `a`: `a` against it, `b` along it.
pub open spec fn next_bone_locations_spec(bone: Bone, a: Vector2D, b: Vector2D, broken: bool)
    -> Option<(Vector2D, Vector2D)> {
    let delta = a.minus_spec(b);
    let length = delta.length_spec();
    if bone_idle_spec(bone, length, broken) {
        Some((a, b))
    } else if bone_breaks_spec(bone, length, broken) {
        None
    } else {
        let shift = delta.scaled_spec(bone_pull_spec(bone.rest_length, length));
        Some((a.minus_spec(shift), b.plus_spec(shift)))
    }
}

/// Where a bone puts its two ends, or `None` when it breaks. `broken` tells
/// whether a bone before it in the same pass has broken.
pub fn next_bone_locations(bone: &Bone, entity: &Entity, broken: bool) -> (r: Option<
    (Vector2D, Vector2D),
>)
    requires
        entity.points@.len() == POINT_COUNT,
        entity@.has(bone.p1),
        entity@.has(bone.p2),
    ensures
        r == next_bone_locations_spec(
            *bone,
            entity@.at(bone.p1).location,
            entity@.at(bone.p2).location,
            broken,
        ),
{
    let a = entity.point_at(bone.p1).location;
    let b = entity.point_at(bone.p2).location;
    let delta = a.minus(b);
    let length = delta.length();
    let idle = match bone.bone_type {
        BoneType::Mount { endurance } => broken,
        BoneType::Repel => !lt(length, bone.rest_length),
        BoneType::Rigid => false,
    };
    if idle {
        return Some((a, b));
    }
    let pull = if is_zero(length) {
        ZERO
    } else {
        soft_product(soft_quotient(difference(length, bone.rest_length), length), HALF)
    };
    let breaks = match bone.bone_type {
        BoneType::Mount { endurance } => {
            let limit = soft_product(soft_product(endurance, bone.rest_length), HALF);
            lt(limit, pull)
        },
        _ => false,
    };
    if breaks {
        None
    } else {
        let shift = delta.scaled(pull);
        Some((a.minus(shift), b.plus(shift)))
    }
}

/// Whether a joint breaks: the cross product of its first bone's direction
/// with its second bone's direction is negative.
pub open spec fn joint_should_break_spec(joint: Joint, entity: EntityView) -> bool {
    let first = entity.at(joint.a2).location.minus_spec(entity.at(joint.a1).location);
    let second = entity.at(joint.b2).location.minus_spec(entity.at(joint.b1).location);
    lt_spec(first.cross_spec(second), ZERO)
}

/// Whether a joint breaks.
pub fn joint_should_break(joint: &Joint, entity: &Entity) -> (r: bool)
    requires
        entity.points@.len() == POINT_COUNT,
        entity@.has(joint.a1),
        entity@.has(joint.a2),
        entity@.has(joint.b1),
        entity@.has(joint.b2),
    ensures
        r == joint_should_break_spec(*joint, entity@),
{
    let first = entity.point_at(joint.a2).location.minus(entity.point_at(joint.a1).location);
    let second = entity.point_at(joint.b2).location.minus(entity.point_at(joint.b1).location);
    lt(first.cross_product(second), ZERO)
}

} // verus!
