//! What holds of snapping a point to the end of a line.

use vstd::prelude::*;
use crate::ieee::{product_spec, total_key};
use crate::line::Line;
use crate::track::{nearer_spec, nearest_end_spec, snap_spec};
use crate::vector::Vector2D;

verus! {

/// Whether `end` is an end of one of the first `count` lines of `lines`.
pub open spec fn is_end_of(lines: Seq<Line>, count: nat, end: Vector2D) -> bool {
    exists|i: int|
        0 <= i < count && ((#[trigger] lines[i]).ends.0.location == end || lines[i].ends.1.location
            == end)
}

/// Whether `end` is within reach of `target`: its squared distance comes
/// before `limit` in the total order of numbers.
pub open spec fn in_reach(end: Vector2D, target: Vector2D, limit: u64) -> bool {
    total_key(end.distance_squared_spec(target)) < total_key(limit)
}

/// Whether `best` is the nearest end within reach among the ends of the
/// first `count` lines: an end within reach that no other end within reach
/// is nearer than, with its squared distance; or `None` where no end is
/// within reach.
pub open spec fn is_nearest(
    best: Option<(Vector2D, u64)>,
    lines: Seq<Line>,
    count: nat,
    target: Vector2D,
    limit: u64,
) -> bool {
    match best {
        Some((end, distance)) => {
            &&& is_end_of(lines, count, end)
            &&& distance == end.distance_squared_spec(target)
            &&& in_reach(end, target, limit)
            &&& forall|other: Vector2D|
                is_end_of(lines, count, other) && in_reach(other, target, limit) ==> total_key(
                    distance,
                ) <= total_key(#[trigger] other.distance_squared_spec(target))
        },
        None => forall|other: Vector2D|
            is_end_of(lines, count, other) ==> !in_reach(other, target, limit),
    }
}

/// The end that `snap_point` finds is the nearest within reach.
pub proof fn lemma_nearest_end(lines: Seq<Line>, count: nat, target: Vector2D, limit: u64)
    requires
        count <= lines.len(),
    ensures
        is_nearest(nearest_end_spec(lines, count, target, limit), lines, count, target, limit),
    decreases count,
{
    let best = nearest_end_spec(lines, count, target, limit);
    if count == 0 {
        assert forall|other: Vector2D| is_end_of(lines, count, other) implies !in_reach(
            other,
            target,
            limit,
        ) by {}
    } else {
        let before = nearest_end_spec(lines, (count - 1) as nat, target, limit);
        lemma_nearest_end(lines, (count - 1) as nat, target, limit);
        let line = lines[count - 1];
        let first = line.ends.0.location;
        let second = line.ends.1.location;
        let middle = nearer_spec(before, first, target, limit);
        assert(best == nearer_spec(middle, second, target, limit));
        assert forall|other: Vector2D| is_end_of(lines, count, other) implies is_end_of(
            lines,
            (count - 1) as nat,
            other,
        ) || other == first || other == second by {
            let i = choose|i: int|
                0 <= i < count && ((#[trigger] lines[i]).ends.0.location == other
                    || lines[i].ends.1.location == other);
            if i < count - 1 {
                assert(is_end_of(lines, (count - 1) as nat, other));
            }
        }
        assert forall|other: Vector2D| is_end_of(lines, (count - 1) as nat, other) implies is_end_of(
            lines,
            count,
            other,
        ) by {
            let i = choose|i: int|
                0 <= i < count - 1 && ((#[trigger] lines[i]).ends.0.location == other
                    || lines[i].ends.1.location == other);
            assert(0 <= i < count && (lines[i].ends.0.location == other || lines[i].ends.1.location
                == other));
        }
        assert(is_end_of(lines, count, first)) by {
            assert(lines[count - 1].ends.0.location == first);
        }
        assert(is_end_of(lines, count, second)) by {
            assert(lines[count - 1].ends.1.location == second);
        }
        match best {
            Some((end, distance)) => {
                assert forall|other: Vector2D|
                    is_end_of(lines, count, other) && in_reach(other, target, limit) implies total_key(
                    distance,
                ) <= total_key(#[trigger] other.distance_squared_spec(target)) by {
                    if is_end_of(lines, (count - 1) as nat, other) {
                        assert(before is Some);
                    }
                }
            },
            None => {
                assert forall|other: Vector2D| is_end_of(lines, count, other) implies !in_reach(
                    other,
                    target,
                    limit,
                ) by {}
            },
        }
    }
}

/// Where a point snaps to is the point itself or the end of one of the
/// lines; it is the point itself exactly when no end is within reach of it
/// or the point is itself the nearest end.
pub proof fn lemma_snap_point(lines: Seq<Line>, max_dist: u64, to_snap: Vector2D)
    ensures
        snap_spec(lines, max_dist, to_snap) == to_snap || is_end_of(
            lines,
            lines.len(),
            snap_spec(lines, max_dist, to_snap),
        ),
        snap_spec(lines, max_dist, to_snap) != to_snap ==> in_reach(
            snap_spec(lines, max_dist, to_snap),
            to_snap,
            product_spec(max_dist, max_dist),
        ),
        (forall|end: Vector2D|
            is_end_of(lines, lines.len(), end) ==> !in_reach(
                end,
                to_snap,
                product_spec(max_dist, max_dist),
            )) ==> snap_spec(lines, max_dist, to_snap) == to_snap,
{
    lemma_nearest_end(lines, lines.len(), to_snap, product_spec(max_dist, max_dist));
}

} // verus!
