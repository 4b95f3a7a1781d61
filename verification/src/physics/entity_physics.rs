//! The steps of a frame on one entity, and their order.

use vstd::prelude::*;
use crate::grid::near_spec;
use crate::line::Line;
use crate::physics::bone_physics::{
    joint_should_break, joint_should_break_spec, next_bone_locations, next_bone_locations_spec,
};
use crate::ieee::{lt_spec, ZERO};
use crate::physics::line_physics::{collide_all, collide_all_spec};
use crate::rider::{Bone, Entity, EntityPoint, EntityView};
use crate::track::Track;
use crate::vector::Vector2D;

verus! {

/// An entity as the physics sees it.
pub type PhysicsEntity = Entity;

/// `0.175`, the pull of gravity per frame, downward.
pub const GRAVITY_DOWN: u64 = 0x3fc6_6666_6666_6666;

/// `0.001`, the pull of gravity per frame, forward: to the right, the way a
/// rider starts. It is small beside the pull downward; the amount is this
/// crate's choice.
pub const GRAVITY_FORWARD: u64 = 0x3f50_624d_d2f1_a9fc;

/// The number of times bones and lines act in a frame.
pub const ITERATIONS: u64 = 6;

/// The usual gravity: mostly downward, with a small part forward.
pub open spec fn default_gravity_spec() -> Vector2D {
    Vector2D(GRAVITY_FORWARD, GRAVITY_DOWN)
}

/// The usual gravity. Both its parts are above zero: it pulls downward and,
/// a little, forward.
pub fn default_gravity() -> (r: Vector2D)
    ensures
        r == default_gravity_spec(),
        lt_spec(ZERO, r.0),
        lt_spec(ZERO, r.1),
        lt_spec(r.0, r.1),
{
    Vector2D(GRAVITY_FORWARD, GRAVITY_DOWN)
}

/// What the lines of a track mean to a point: the lines in the order in
/// which they were added, the size of a grid cell, and the depth of the
/// gravity wells.
pub struct World {
    pub lines: Seq<Line>,
    pub cell_size: u64,
    pub well_height: u64,
}

/// What became of an entity in a step: still one body, or rider and sled
/// apart. Nothing puts the two together again.
pub enum UpdateBonesResult {
    Same(PhysicsEntity),
    /// The rider, then the sled.
    Broken(PhysicsEntity, PhysicsEntity),
}

/// What an `UpdateBonesResult` holds.
pub enum Outcome {
    Same(EntityView),
    Broken(EntityView, EntityView),
}

impl View for UpdateBonesResult {
    type V = Outcome;

    open spec fn view(&self) -> Outcome {
        match *self {
            UpdateBonesResult::Same(entity) => Outcome::Same(entity@),
            UpdateBonesResult::Broken(bosh, sled) => Outcome::Broken(bosh@, sled@),
        }
    }
}

impl Outcome {
    /// Every body is well-formed, and the halves of a broken one have no bone
    /// left that can break.
    pub open spec fn wf(self) -> bool {
        match self {
            Outcome::Same(entity) => entity.wf(),
            Outcome::Broken(bosh, sled) => {
                &&& bosh.wf()
                &&& sled.wf()
                &&& bosh.unbreakable()
                &&& sled.unbreakable()
            },
        }
    }
}

impl UpdateBonesResult {
    /// The entity of a result that is still one body.
    pub fn unwrap_same(self) -> (r: PhysicsEntity)
        requires
            self is Same,
        ensures
            r == self->Same_0,
    {
        match self {
            UpdateBonesResult::Same(entity) => entity,
            UpdateBonesResult::Broken(bosh, _) => bosh,
        }
    }

    /// Whether the result is still one body, so that `unwrap_same` may be
    /// called.
    pub fn is_same(&self) -> (r: bool)
        ensures
            r == (*self is Same),
    {
        match self {
            UpdateBonesResult::Same(_) => true,
            UpdateBonesResult::Broken(_, _) => false,
        }
    }
}

/// A point moved on by one frame under gravity: its velocity is the step it
/// made last frame plus gravity; it moves by that velocity, remembers where
/// it was, and carries the velocity as its momentum.
pub open spec fn integrated_spec(point: EntityPoint, gravity: Vector2D) -> EntityPoint {
    let velocity = point.location.minus_spec(point.previous_location).plus_spec(gravity);
    EntityPoint {
        previous_location: point.location,
        location: point.location.plus_spec(velocity),
        momentum: velocity,
        friction: point.friction,
    }
}

/// The body with every point moved on by one frame under gravity.
pub open spec fn next_points_spec(entity: EntityView, gravity: Vector2D) -> EntityView {
    EntityView {
        points: Seq::new(
            entity.points.len(),
            |i: int|
                match entity.points[i] {
                    Some(point) => Some(integrated_spec(point, gravity)),
                    None => None,
                },
        ),
        ..entity
    }
}

/// A point after the lines near it have acted on it, in the order in which a
/// query within one cell of the point lists them.
pub open spec fn settled_spec(world: World, point: EntityPoint) -> EntityPoint {
    let near = near_spec(world.lines, world.cell_size, point.location, 1);
    collide_all_spec(near, near.len(), point, world.well_height)
}

/// The body after the lines have acted on each of its points.
pub open spec fn gravity_wells_spec(entity: EntityView, world: World) -> EntityView {
    EntityView {
        points: Seq::new(
            entity.points.len(),
            |i: int|
                match entity.points[i] {
                    Some(point) => Some(settled_spec(world, point)),
                    None => None,
                },
        ),
        ..entity
    }
}

/// The body after one bone has acted, and whether a bone has broken so far.
/// A bone that breaks moves nothing.
pub open spec fn bone_applied_spec(entity: EntityView, bone: Bone, broken: bool) -> (
    EntityView,
    bool,
) {
    match next_bone_locations_spec(
        bone,
        entity.at(bone.p1).location,
        entity.at(bone.p2).location,
        broken,
    ) {
        Some((first, second)) => (entity.moved(bone.p1, first).moved(bone.p2, second), broken),
        None => (entity, true),
    }
}

/// The body after its first `count` bones have acted in their declared
/// order, and whether one of them broke.
pub open spec fn bones_pass_spec(entity: EntityView, count: nat) -> (EntityView, bool)
    decreases count,
{
    if count == 0 {
        (entity, false)
    } else {
        let before = bones_pass_spec(entity, (count - 1) as nat);
        bone_applied_spec(before.0, entity.bones[count - 1], before.1)
    }
}

/// The body after all its bones have acted.
pub open spec fn after_bones_spec(entity: EntityView) -> EntityView {
    bones_pass_spec(entity, entity.bones.len()).0
}

/// Rider and sled of a body, apart.
pub open spec fn split_spec(entity: EntityView) -> Outcome {
    Outcome::Broken(entity.half(false), entity.half(true))
}

/// A pass of the bones over a body: all bones act, and if one broke the
/// body is split as it then stands.
pub open spec fn apply_bones_spec(entity: EntityView) -> Outcome {
    let pass = bones_pass_spec(entity, entity.bones.len());
    if pass.1 {
        split_spec(pass.0)
    } else {
        Outcome::Same(pass.0)
    }
}

/// Whether one of the body's joints breaks.
pub open spec fn any_joint_breaks_spec(entity: EntityView) -> bool {
    exists|i: int|
        0 <= i < entity.joints.len() && joint_should_break_spec(#[trigger] entity.joints[i], entity)
}

/// The joints of a body: if one of them breaks the body is split, else it
/// stays as it is.
pub open spec fn apply_all_joints_spec(entity: EntityView) -> Outcome {
    if any_joint_breaks_spec(entity) {
        split_spec(entity)
    } else {
        Outcome::Same(entity)
    }
}

/// One round of a frame: the bones act, then the lines. A body that is
/// whole may break in the round; the halves of a broken one are each worked
/// on alone.
pub open spec fn round_spec(outcome: Outcome, world: World) -> Outcome {
    let boned = match outcome {
        Outcome::Same(entity) => apply_bones_spec(entity),
        Outcome::Broken(bosh, sled) => Outcome::Broken(
            after_bones_spec(bosh),
            after_bones_spec(sled),
        ),
    };
    match boned {
        Outcome::Same(entity) => Outcome::Same(gravity_wells_spec(entity, world)),
        Outcome::Broken(bosh, sled) => Outcome::Broken(
            gravity_wells_spec(bosh, world),
            gravity_wells_spec(sled, world),
        ),
    }
}

/// `count` rounds, one after the other.
pub open spec fn rounds_spec(outcome: Outcome, world: World, count: nat) -> Outcome
    decreases count,
{
    if count == 0 {
        outcome
    } else {
        round_spec(rounds_spec(outcome, world, (count - 1) as nat), world)
    }
}

/// A frame of one entity: every point moves on under gravity; then bones and
/// lines act for `iterations` rounds; then, if the body is still whole, its
/// joints are looked at.
pub open spec fn apply_all_physics_spec(
    entity: EntityView,
    world: World,
    gravity: Vector2D,
    iterations: nat,
) -> Outcome {
    let relaxed = rounds_spec(Outcome::Same(next_points_spec(entity, gravity)), world, iterations);
    match relaxed {
        Outcome::Same(same) => apply_all_joints_spec(same),
        Outcome::Broken(_, _) => relaxed,
    }
}

/// A pass of the bones keeps the shape of the body, and breaks nothing where
/// no bone can break.
pub proof fn lemma_bones_pass(entity: EntityView, count: nat)
    requires
        entity.wf(),
        count <= entity.bones.len(),
    ensures
        bones_pass_spec(entity, count).0.same_shape(entity),
        bones_pass_spec(entity, count).0.wf(),
        entity.unbreakable() ==> !bones_pass_spec(entity, count).1,
    decreases count,
{
    if count > 0 {
        lemma_bones_pass(entity, (count - 1) as nat);
        let before = bones_pass_spec(entity, (count - 1) as nat);
        let bone = entity.bones[count - 1];
        assert(entity.has(bone.p1) && entity.has(bone.p2));
        assert(before.0.has(bone.p1) && before.0.has(bone.p2));
        let after = bone_applied_spec(before.0, bone, before.1);
        assert(after.0.same_shape(before.0));
        lemma_same_shape_wf(entity, after.0);
    }
}

/// A body with the shape of a well-formed one is well-formed, and can break
/// only if that one can.
pub proof fn lemma_same_shape_wf(entity: EntityView, other: EntityView)
    requires
        entity.wf(),
        other.same_shape(entity),
    ensures
        other.wf(),
        entity.unbreakable() ==> other.unbreakable(),
{
    assert forall|i: int| 0 <= i < other.bones.len() implies other.has(
        (#[trigger] other.bones[i]).p1,
    ) && other.has(other.bones[i].p2) by {
        assert(entity.has(entity.bones[i].p1) && entity.has(entity.bones[i].p2));
    }
    assert forall|i: int| 0 <= i < other.joints.len() implies {
        &&& other.has((#[trigger] other.joints[i]).a1)
        &&& other.has(other.joints[i].a2)
        &&& other.has(other.joints[i].b1)
        &&& other.has(other.joints[i].b2)
    } by {
        assert(entity.has(entity.joints[i].a1));
    }
}

impl PhysicsEntity {
    /// Moves every point on by one frame under gravity. Bones and lines do
    /// not act here.
    pub fn next_points(&mut self, gravity: Vector2D)
        ensures
            final(self)@ == next_points_spec(old(self)@, gravity),
            final(self)@.same_shape(old(self)@),
    {
        let mut i: usize = 0;
        while i < self.points.len()
            invariant
                i <= self.points.len(),
                self.points@.len() == old(self).points@.len(),
                self.bones == old(self).bones,
                self.joints == old(self).joints,
                forall|j: int|
                    0 <= j < i ==> self.points@[j] == next_points_spec(old(self)@, gravity).points[j],
                forall|j: int| i <= j < self.points@.len() ==> self.points@[j] == old(self).points@[j],
            decreases self.points.len() - i,
        {
            match self.points[i] {
                Some(point) => {
                    let velocity = point.location.minus(point.previous_location).plus(gravity);
                    self.points[i] = Some(
                        EntityPoint {
                            previous_location: point.location,
                            location: point.location.plus(velocity),
                            momentum: velocity,
                            friction: point.friction,
                        },
                    );
                },
                None => {},
            }
            i += 1;
        }
        proof {
            assert(self.points@ =~= next_points_spec(old(self)@, gravity).points);
        }
    }

    /// Lets the lines near each point act on it: the lines that the track
    /// lists within one cell of the point, in that order.
    pub fn apply_gravity_wells(&mut self, track: &Track)
        requires
            track.wf(),
        ensures
            final(self)@ == gravity_wells_spec(old(self)@, track.world()),
            final(self)@.same_shape(old(self)@),
    {
        let mut i: usize = 0;
        while i < self.points.len()
            invariant
                track.wf(),
                i <= self.points.len(),
                self.points@.len() == old(self).points@.len(),
                self.bones == old(self).bones,
                self.joints == old(self).joints,
                forall|j: int|
                    0 <= j < i ==> self.points@[j] == gravity_wells_spec(
                        old(self)@,
                        track.world(),
                    ).points[j],
                forall|j: int| i <= j < self.points@.len() ==> self.points@[j] == old(self).points@[j],
            decreases self.points.len() - i,
        {
            match self.points[i] {
                Some(point) => {
                    let near = track.lines_near(point.location);
                    self.points[i] = Some(collide_all(&near, &point, track.gravity_well_height()));
                },
                None => {},
            }
            i += 1;
        }
        proof {
            assert(self.points@ =~= gravity_wells_spec(old(self)@, track.world()).points);
        }
    }

    /// Lets every bone act once, in the declared order. A bone that breaks
    /// moves nothing, and the bones after it act on a body that counts as
    /// broken. If a bone broke, the body is split at the end of the pass.
    pub fn apply_bones(self) -> (r: UpdateBonesResult)
        requires
            self.wf(),
        ensures
            r@ == apply_bones_spec(self@),
            r@.wf(),
            r matches UpdateBonesResult::Same(same) ==> same@.same_shape(self@),
            self@.unbreakable() ==> r is Same,
    {
        let mut entity = self;
        let mut broken = false;
        let mut i: usize = 0;
        while i < entity.bones.len()
            invariant
                self.wf(),
                i <= entity.bones.len(),
                entity.bones@ == self.bones@,
                (entity@, broken) == bones_pass_spec(self@, i as nat),
                entity@.same_shape(self@),
                entity.wf(),
            decreases entity.bones.len() - i,
        {
            let bone = entity.bones[i];
            proof {
                lemma_bones_pass(self@, (i + 1) as nat);
                assert(entity@.has(entity@.bones[i as int].p1));
            }
            match next_bone_locations(&bone, &entity, broken) {
                Some((first, second)) => {
                    entity.move_point(bone.p1, first);
                    entity.move_point(bone.p2, second);
                },
                None => {
                    broken = true;
                },
            }
            i += 1;
        }
        proof {
            lemma_bones_pass(self@, self.bones@.len());
        }
        if broken {
            let (bosh, sled) = entity.split();
            UpdateBonesResult::Broken(bosh, sled)
        } else {
            UpdateBonesResult::Same(entity)
        }
    }

    /// Looks at the joints: if one of them breaks, the body is split; else it
    /// stays as it is. A body without joints always stays.
    pub fn apply_all_joints(self) -> (r: UpdateBonesResult)
        requires
            self.wf(),
        ensures
            r@ == apply_all_joints_spec(self@),
            r@.wf(),
    {
        let mut breaks = false;
        let mut i: usize = 0;
        while i < self.joints.len() && !breaks
            invariant
                self.wf(),
                i <= self.joints.len(),
                !breaks ==> forall|j: int|
                    0 <= j < i ==> !joint_should_break_spec(#[trigger] self@.joints[j], self@),
                breaks ==> any_joint_breaks_spec(self@),
            decreases self.joints.len() - i + if breaks { 0int } else { 1int },
        {
            proof {
                assert(self@.has(self@.joints[i as int].a1));
            }
            if joint_should_break(&self.joints[i], &self) {
                breaks = true;
                proof {
                    assert(joint_should_break_spec(self@.joints[i as int], self@));
                }
            } else {
                i += 1;
            }
        }
        if breaks {
            let (bosh, sled) = self.split();
            UpdateBonesResult::Broken(bosh, sled)
        } else {
            UpdateBonesResult::Same(self)
        }
    }

    /// A frame of physics with the usual gravity and six rounds. The usual
    /// gravity pulls 0.175 downward and 0.001 forward.
    pub fn apply_all_physics_ez(self, track: &Track) -> (r: UpdateBonesResult)
        requires
            self.wf(),
            track.wf(),
        ensures
            r@ == apply_all_physics_spec(
                self@,
                track.world(),
                default_gravity_spec(),
                ITERATIONS as nat,
            ),
            lt_spec(ZERO, default_gravity_spec().0),
            lt_spec(ZERO, default_gravity_spec().1),
            r@.wf(),
    {
        self.apply_all_physics(track, default_gravity(), ITERATIONS)
    }

    /// A frame of physics. Every point moves on under `gravity`. Then, for
    /// `iterations` rounds, the bones act and after them the lines; a body
    /// that breaks in a round goes on as rider and sled, each worked on
    /// alone. At the end a body that is still whole has its joints looked at,
    /// and splits if one breaks.
    pub fn apply_all_physics(self, track: &Track, gravity: Vector2D, iterations: u64) -> (r:
        UpdateBonesResult)
        requires
            self.wf(),
            track.wf(),
        ensures
            r@ == apply_all_physics_spec(self@, track.world(), gravity, iterations as nat),
            r@.wf(),
    {
        let mut entity = self;
        entity.next_points(gravity);
        proof {
            lemma_same_shape_wf(self@, entity@);
        }
        let ghost start = Outcome::Same(entity@);
        let mut result = UpdateBonesResult::Same(entity);
        let mut i: u64 = 0;
        while i < iterations
            invariant
                track.wf(),
                i <= iterations,
                result@ == rounds_spec(start, track.world(), i as nat),
                result@.wf(),
            decreases iterations - i,
        {
            result = match result {
                UpdateBonesResult::Same(same) => {
                    match same.apply_bones() {
                        UpdateBonesResult::Same(whole) => {
                            let mut whole = whole;
                            let ghost boned = whole@;
                            whole.apply_gravity_wells(track);
                            proof {
                                lemma_same_shape_wf(boned, whole@);
                            }
                            UpdateBonesResult::Same(whole)
                        },
                        UpdateBonesResult::Broken(bosh, sled) => {
                            let mut bosh = bosh;
                            let mut sled = sled;
                            let ghost boned_bosh = bosh@;
                            let ghost boned_sled = sled@;
                            bosh.apply_gravity_wells(track);
                            sled.apply_gravity_wells(track);
                            proof {
                                lemma_same_shape_wf(boned_bosh, bosh@);
                                lemma_same_shape_wf(boned_sled, sled@);
                            }
                            UpdateBonesResult::Broken(bosh, sled)
                        },
                    }
                },
                UpdateBonesResult::Broken(bosh, sled) => {
                    let ghost old_bosh = bosh@;
                    let ghost old_sled = sled@;
                    let mut bosh = bosh.apply_bones().unwrap_same();
                    let mut sled = sled.apply_bones().unwrap_same();
                    let ghost boned_bosh = bosh@;
                    let ghost boned_sled = sled@;
                    proof {
                        lemma_same_shape_wf(old_bosh, boned_bosh);
                        lemma_same_shape_wf(old_sled, boned_sled);
                    }
                    bosh.apply_gravity_wells(track);
                    sled.apply_gravity_wells(track);
                    proof {
                        lemma_same_shape_wf(boned_bosh, bosh@);
                        lemma_same_shape_wf(boned_sled, sled@);
                    }
                    UpdateBonesResult::Broken(bosh, sled)
                },
            };
            i += 1;
        }
        match result {
            UpdateBonesResult::Same(same) => same.apply_all_joints(),
            UpdateBonesResult::Broken(bosh, sled) => UpdateBonesResult::Broken(bosh, sled),
        }
    }
}

} // verus!
