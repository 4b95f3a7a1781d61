//! What a line does to a point that has sunk into it.
//!
//! Below each line lies its gravity well: the strip on the side away from
//! the line's normal, as long as the line with its extensions and as deep as
//! the track's well height. A point in the well that moves into the line is
//! put back on the line.

use vstd::prelude::*;
use crate::ieee::{
    count, count_spec, lt, lt_spec, neg, neg_spec, product_spec, soft_product, soft_sum, sum_spec,
    TENTH, ZERO,
};
use crate::line::{Line, LineType};
use crate::rider::EntityPoint;
use crate::vector::Vector2D;

verus! {

/// How deep the point has sunk below the line, or zero where the line does
/// not hold it. The depth is the distance from the line against its normal.
/// It is zero
///  * when the point does not move into the line: its momentum has no part
///    against the normal;
///  * when the point is beside the line: its place along the line is before
///    the first end by more than that end's extension, or beyond the second
///    end by more than that end's extension;
///  * when the point is above the line, or `well_height` or more below it.
pub open spec fn well_depth_spec(line: Line, point: EntityPoint, well_height: u64) -> u64 {
    let along = line.as_vector2d_spec();
    let from_start = point.location.minus_spec(line.ends.0.location);
    let normal = line.perpendicular_spec();
    let length = along.length_spec();
    let direction = along.divided_spec(length);
    let extensions = line.hitbox_extensions_spec();
    let place = from_start.dot_spec(direction);
    let depth = normal.negated_spec().dot_spec(from_start);
    if !lt_spec(normal.dot_spec(point.momentum), ZERO) {
        ZERO
    } else if lt_spec(place, neg_spec(extensions.0)) || lt_spec(sum_spec(extensions.1, length), place) {
        ZERO
    } else if lt_spec(ZERO, depth) && lt_spec(depth, well_height) {
        depth
    } else {
        ZERO
    }
}

/// How deep the point has sunk below the line, or zero where the line does
/// not hold it.
pub fn well_depth(line: &Line, point: &EntityPoint, well_height: u64) -> (r: u64)
    ensures
        r == well_depth_spec(*line, *point, well_height),
{
    let along = line.as_vector2d();
    let from_start = point.location.minus(line.ends.0.location);
    let normal = line.perpendicular();
    if !lt(normal.dot_product(point.momentum), ZERO) {
        return ZERO;
    }
    let length = along.length();
    let direction = along.divided(length);
    let extensions = line.hitbox_extensions();
    let place = from_start.dot_product(direction);
    if lt(place, neg(extensions.0)) || lt(soft_sum(extensions.1, length), place) {
        return ZERO;
    }
    let depth = normal.negated().dot_product(from_start);
    if lt(ZERO, depth) && lt(depth, well_height) {
        depth
    } else {
        ZERO
    }
}

/// The push that an accelerating line gives along its direction: a tenth of
/// its amount. The amount is counted exactly while it is below `2^53`.
pub open spec fn boost_spec(amount: u64) -> u64 {
    product_spec(count_spec(amount as nat), TENTH)
}

/// The momentum that a line adds to a point it holds: none for most lines;
/// for an accelerating line its boost along the line, from the first end to
/// the second.
pub open spec fn line_push_spec(line: Line) -> Vector2D {
    match line.line_type {
        LineType::Accelerate { amount } => {
            let along = line.as_vector2d_spec();
            along.divided_spec(along.length_spec()).scaled_spec(boost_spec(amount))
        },
        _ => Vector2D(ZERO, ZERO),
    }
}

/// The point that has sunk `depth` below the line, put back: it is moved by
/// `depth` along the normal onto the line, its momentum loses its part along
/// the normal and keeps its part along the line, and an accelerating line
/// adds its push.
pub open spec fn struck_spec(line: Line, point: EntityPoint, depth: u64) -> EntityPoint {
    let normal = line.perpendicular_spec();
    let settled = point.momentum.minus_spec(normal.scaled_spec(point.momentum.dot_spec(normal)));
    EntityPoint {
        location: point.location.plus_spec(normal.scaled_spec(depth)),
        momentum: match line.line_type {
            LineType::Accelerate { amount } => settled.plus_spec(line_push_spec(line)),
            _ => settled,
        },
        ..point
    }
}

/// What a line does to a point: scenery does nothing; another line puts the
/// point back where it has sunk into the line's well, and else does nothing.
pub open spec fn collide_spec(line: Line, point: EntityPoint, well_height: u64) -> EntityPoint {
    let depth = well_depth_spec(line, point, well_height);
    if line.line_type is Scenery {
        point
    } else if lt_spec(ZERO, depth) {
        struck_spec(line, point, depth)
    } else {
        point
    }
}

/// The point after the first `count` lines of `lines` have acted on it, one
/// after the other.
pub open spec fn collide_all_spec(lines: Seq<Line>, count: nat, point: EntityPoint, well_height: u64)
    -> EntityPoint
    decreases count,
{
    if count == 0 {
        point
    } else {
        collide_spec(
            lines[count - 1],
            collide_all_spec(lines, (count - 1) as nat, point, well_height),
            well_height,
        )
    }
}

/// The momentum that a line adds to a point it holds.
fn line_push(line: &Line) -> (r: Vector2D)
    ensures
        r == line_push_spec(*line),
{
    match line.line_type {
        LineType::Accelerate { amount } => {
            let along = line.as_vector2d();
            along.divided(along.length()).scaled(soft_product(count(amount), TENTH))
        },
        _ => Vector2D(ZERO, ZERO),
    }
}

/// What a line does to a point.
pub fn collide(line: &Line, point: &EntityPoint, well_height: u64) -> (r: EntityPoint)
    ensures
        r == collide_spec(*line, *point, well_height),
{
    match line.line_type {
        LineType::Scenery => {
            return *point;
        },
        _ => {},
    }
    let depth = well_depth(line, point, well_height);
    if !lt(ZERO, depth) {
        return *point;
    }
    let normal = line.perpendicular();
    let settled = point.momentum.minus(normal.scaled(point.momentum.dot_product(normal)));
    let momentum = match line.line_type {
        LineType::Accelerate { amount } => settled.plus(line_push(line)),
        _ => settled,
    };
    EntityPoint {
        location: point.location.plus(normal.scaled(depth)),
        previous_location: point.previous_location,
        momentum,
        friction: point.friction,
    }
}

/// Lets every line of `lines` act on the point, one after the other.
pub fn collide_all(lines: &Vec<Line>, point: &EntityPoint, well_height: u64) -> (r: EntityPoint)
    ensures
        r == collide_all_spec(lines@, lines@.len(), *point, well_height),
{
    let mut current = *point;
    let mut i: usize = 0;
    while i < lines.len()
        invariant
            i <= lines.len(),
            current == collide_all_spec(lines@, i as nat, *point, well_height),
        decreases lines.len() - i,
    {
        current = collide(&lines[i], &current, well_height);
        i += 1;
    }
    current
}

} // verus!
