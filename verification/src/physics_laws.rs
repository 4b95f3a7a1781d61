//! What holds of the physics whatever the numbers are.

use vstd::prelude::*;
use crate::cell::cell_index_spec;
use crate::grid::near_spec;
use crate::grid_laws::{
    lemma_scan_block_members, lemma_solid_push, lemma_solid_scan_block, solid_lines,
};
use crate::line::Line;
use crate::physics::advance_frame::{frame_after_prefix_spec, frame_spec};
use crate::physics::entity_physics::{
    after_bones_spec, apply_all_physics_spec, apply_bones_spec, default_gravity_spec,
    gravity_wells_spec, next_points_spec, round_spec, rounds_spec, settled_spec, Outcome, World,
    ITERATIONS,
};
use crate::physics::line_physics::collide_all_spec;
use crate::rider::{EntityPoint, EntityView, PointIndex, POINT_COUNT};
use crate::vector::Vector2D;

verus! {

/// Whether two worlds differ in their scenery at most: the same cell size,
/// the same well height, and the same lines that are not scenery, in the
/// same order. Scenery may have been added to either, anywhere among its
/// lines, or taken from it.
pub open spec fn same_but_scenery(world: World, other: World) -> bool {
    &&& world.cell_size == other.cell_size
    &&& world.well_height == other.well_height
    &&& solid_lines(world.lines) == solid_lines(other.lines)
}

/// Whether every line of `lines` is scenery.
pub open spec fn all_scenery(lines: Seq<Line>) -> bool {
    forall|i: int| 0 <= i < lines.len() ==> (#[trigger] lines[i]).line_type is Scenery
}

/// The world without its lines.
pub open spec fn without_lines(world: World) -> World {
    World { lines: Seq::empty(), ..world }
}

/// What the first `count` lines do to a point does not depend on the lines
/// after them.
pub proof fn lemma_collide_all_prefix(
    lines: Seq<Line>,
    other: Seq<Line>,
    count: nat,
    point: EntityPoint,
    well_height: u64,
)
    requires
        count <= lines.len(),
        count <= other.len(),
        forall|i: int| 0 <= i < count ==> lines[i] == other[i],
    ensures
        collide_all_spec(lines, count, point, well_height) == collide_all_spec(
            other,
            count,
            point,
            well_height,
        ),
    decreases count,
{
    if count > 0 {
        lemma_collide_all_prefix(lines, other, (count - 1) as nat, point, well_height);
    }
}

/// Scenery does nothing to a point: what some lines do to it is what those
/// of them that are not scenery do.
pub proof fn lemma_collide_all_solid(lines: Seq<Line>, point: EntityPoint, well_height: u64)
    ensures
        collide_all_spec(lines, lines.len(), point, well_height) == collide_all_spec(
            solid_lines(lines),
            solid_lines(lines).len(),
            point,
            well_height,
        ),
    decreases lines.len(),
{
    if lines.len() > 0 {
        let front = lines.drop_last();
        let last = lines.last();
        let solid = solid_lines(front);
        lemma_collide_all_solid(front, point, well_height);
        lemma_collide_all_prefix(lines, front, front.len(), point, well_height);
        if !(last.line_type is Scenery) {
            lemma_collide_all_prefix(solid.push(last), solid, solid.len(), point, well_height);
            assert(solid.push(last)[solid.len() as int] == last);
        }
    }
}

/// In two worlds that differ in their scenery at most a point settles in the
/// same place.
pub proof fn lemma_scenery_settles_nothing(world: World, other: World, point: EntityPoint)
    requires
        same_but_scenery(world, other),
    ensures
        settled_spec(world, point) == settled_spec(other, point),
{
    let cx = cell_index_spec(point.location.0, world.cell_size) as int;
    let cy = cell_index_spec(point.location.1, world.cell_size) as int;
    let near = near_spec(world.lines, world.cell_size, point.location, 1);
    let other_near = near_spec(other.lines, other.cell_size, point.location, 1);
    lemma_solid_scan_block(world.lines, world.cell_size, cx - 1, cx + 1, cy - 1, cy + 1);
    lemma_solid_scan_block(other.lines, other.cell_size, cx - 1, cx + 1, cy - 1, cy + 1);
    assert(solid_lines(near) == solid_lines(other_near));
    lemma_collide_all_solid(near, point, world.well_height);
    lemma_collide_all_solid(other_near, point, other.well_height);
}

/// In two worlds that differ in their scenery at most the lines do the same
/// to a body.
pub proof fn lemma_scenery_leaves_body(world: World, other: World, entity: EntityView)
    requires
        same_but_scenery(world, other),
    ensures
        gravity_wells_spec(entity, world) == gravity_wells_spec(entity, other),
{
    assert forall|i: int| 0 <= i < entity.points.len() implies gravity_wells_spec(
        entity,
        world,
    ).points[i] == gravity_wells_spec(entity, other).points[i] by {
        if entity.points[i] is Some {
            lemma_scenery_settles_nothing(world, other, entity.points[i]->Some_0);
        }
    }
    assert(gravity_wells_spec(entity, world).points =~= gravity_wells_spec(entity, other).points);
}

/// A round is the same in two worlds that differ in their scenery at most.
pub proof fn lemma_scenery_round(world: World, other: World, outcome: Outcome)
    requires
        same_but_scenery(world, other),
    ensures
        round_spec(outcome, world) == round_spec(outcome, other),
{
    let boned = match outcome {
        Outcome::Same(entity) => apply_bones_spec(entity),
        Outcome::Broken(bosh, sled) => Outcome::Broken(
            after_bones_spec(bosh),
            after_bones_spec(sled),
        ),
    };
    match boned {
        Outcome::Same(entity) => {
            lemma_scenery_leaves_body(world, other, entity);
        },
        Outcome::Broken(bosh, sled) => {
            lemma_scenery_leaves_body(world, other, bosh);
            lemma_scenery_leaves_body(world, other, sled);
        },
    }
}

/// Any number of rounds are the same in two worlds that differ in their
/// scenery at most.
pub proof fn lemma_scenery_rounds(world: World, other: World, outcome: Outcome, count: nat)
    requires
        same_but_scenery(world, other),
    ensures
        rounds_spec(outcome, world, count) == rounds_spec(outcome, other, count),
    decreases count,
{
    if count > 0 {
        lemma_scenery_rounds(world, other, outcome, (count - 1) as nat);
        lemma_scenery_round(world, other, rounds_spec(outcome, world, (count - 1) as nat));
    }
}

/// Scenery is inert. Let two tracks have the same settings and the same
/// lines that are not scenery, in the same order; scenery may stand among
/// the lines of either, as much of it and wherever. Then a frame of physics
/// gives every entity exactly the same on both, point by point.
pub proof fn lemma_scenery_is_inert(
    entity: EntityView,
    world: World,
    other: World,
    gravity: Vector2D,
    iterations: nat,
)
    requires
        same_but_scenery(world, other),
    ensures
        apply_all_physics_spec(entity, world, gravity, iterations) == apply_all_physics_spec(
            entity,
            other,
            gravity,
            iterations,
        ),
{
    lemma_scenery_rounds(
        world,
        other,
        Outcome::Same(next_points_spec(entity, gravity)),
        iterations,
    );
}

/// The same for the entities of a frame, up to the first `count`.
proof fn lemma_scenery_frame_prefix(
    entities: Seq<EntityView>,
    world: World,
    other: World,
    count: nat,
)
    requires
        same_but_scenery(world, other),
    ensures
        frame_after_prefix_spec(entities, world, count) == frame_after_prefix_spec(
            entities,
            other,
            count,
        ),
    decreases count,
{
    if count > 0 {
        lemma_scenery_frame_prefix(entities, world, other, (count - 1) as nat);
        lemma_scenery_is_inert(
            entities[count - 1],
            world,
            other,
            default_gravity_spec(),
            ITERATIONS as nat,
        );
    }
}

/// Scenery is inert in every frame: on two tracks that differ in their
/// scenery at most the entities are in every frame exactly in the same
/// places.
pub proof fn lemma_scenery_frames(start: Seq<EntityView>, world: World, other: World, frame: nat)
    requires
        same_but_scenery(world, other),
    ensures
        frame_spec(start, world, frame) == frame_spec(start, other, frame),
    decreases frame,
{
    if frame > 0 {
        lemma_scenery_frames(start, world, other, (frame - 1) as nat);
        let before = frame_spec(start, world, (frame - 1) as nat);
        lemma_scenery_frame_prefix(before, world, other, before.len());
    }
}

/// Nothing acts on a point where no line is near it.
pub proof fn lemma_no_line_near_settles_nothing(world: World, point: EntityPoint)
    requires
        near_spec(world.lines, world.cell_size, point.location, 1).len() == 0,
    ensures
        settled_spec(world, point) == point,
{
}

/// On a track without lines the lines leave every body as it is: in free
/// fall a frame is the step under gravity and the bones, and nothing else.
pub proof fn lemma_no_lines_leave_body(world: World, entity: EntityView)
    requires
        world.lines.len() == 0,
    ensures
        gravity_wells_spec(entity, world) == entity,
{
    assert forall|i: int| 0 <= i < entity.points.len() implies gravity_wells_spec(
        entity,
        world,
    ).points[i] == entity.points[i] by {
        if entity.points[i] is Some {
            let point = entity.points[i]->Some_0;
            let cx = cell_index_spec(point.location.0, world.cell_size) as int;
            let cy = cell_index_spec(point.location.1, world.cell_size) as int;
            let near = near_spec(world.lines, world.cell_size, point.location, 1);
            if near.len() > 0 {
                assert(near.contains(near[0]));
                lemma_scan_block_members(
                    world.lines,
                    world.cell_size,
                    cx - 1,
                    cx + 1,
                    cy - 1,
                    cy + 1,
                    near[0],
                );
            }
            lemma_no_line_near_settles_nothing(world, point);
        }
    }
    assert(gravity_wells_spec(entity, world).points =~= entity.points);
}

/// Lines that are all scenery have no line that is not.
pub proof fn lemma_all_scenery_is_nothing_solid(lines: Seq<Line>)
    requires
        all_scenery(lines),
    ensures
        solid_lines(lines) == Seq::<Line>::empty(),
    decreases lines.len(),
{
    if lines.len() > 0 {
        let front = lines.drop_last();
        assert forall|i: int| 0 <= i < front.len() implies (#[trigger] front[i]).line_type
            is Scenery by {
            assert(front[i] == lines[i]);
        }
        lemma_all_scenery_is_nothing_solid(front);
        assert(lines[lines.len() - 1].line_type is Scenery);
    }
}

/// A track whose lines are all scenery is a track without lines: in every
/// frame the entities are exactly where they are with no line at all.
pub proof fn lemma_only_scenery_is_no_lines(start: Seq<EntityView>, world: World, frame: nat)
    requires
        all_scenery(world.lines),
    ensures
        frame_spec(start, world, frame) == frame_spec(start, without_lines(world), frame),
{
    lemma_all_scenery_is_nothing_solid(world.lines);
    lemma_scenery_frames(start, world, without_lines(world), frame);
}

/// A line of scenery added to a track changes no frame.
pub proof fn lemma_added_scenery_changes_nothing(
    start: Seq<EntityView>,
    world: World,
    line: Line,
    frame: nat,
)
    requires
        line.line_type is Scenery,
    ensures
        frame_spec(start, world, frame) == frame_spec(
            start,
            World { lines: world.lines.push(line), ..world },
            frame,
        ),
{
    lemma_solid_push(world.lines, line);
    lemma_scenery_frames(start, world, World { lines: world.lines.push(line), ..world }, frame);
}

/// A broken body stays broken: no number of rounds makes one body of rider
/// and sled again.
pub proof fn lemma_broken_stays_broken(bosh: EntityView, sled: EntityView, world: World, count: nat)
    ensures
        rounds_spec(Outcome::Broken(bosh, sled), world, count) is Broken,
    decreases count,
{
    if count > 0 {
        lemma_broken_stays_broken(bosh, sled, world, (count - 1) as nat);
    }
}

/// The halves of a split body fill disjoint roles: the rider's half has no
/// point of the sled and the sled's half none of the rider.
pub proof fn lemma_halves_are_disjoint(entity: EntityView, index: PointIndex)
    requires
        entity.points.len() == POINT_COUNT,
    ensures
        entity.half(false).has(index) == (entity.has(index) && !index.is_sled_spec()),
        entity.half(true).has(index) == (entity.has(index) && index.is_sled_spec()),
{
}

} // verus!
