//! Jointed bodies: points held together by bones, and joints that tell when
//! rider and sled part.

use vstd::prelude::*;
use crate::ieee::{difference, difference_spec, product_spec, soft_product, HALF, ZERO};
use crate::vector::Vector2D;

verus! {

/// The role of a point in a body. Four points make the sled, six the rider.
#[derive(Clone, Copy, Debug, PartialEq, Eq, Hash, Structural)]
pub enum PointIndex {
    SledPeg,
    SledTail,
    SledNose,
    SledRope,
    BoshButt,
    BoshShoulder,
    BoshLeftHand,
    BoshRightHand,
    BoshLeftFoot,
    BoshRightFoot,
}

/// The number of roles.
pub const POINT_COUNT: usize = 10;

impl PointIndex {
    /// The place of the role in an entity's table of points.
    pub open spec fn slot_spec(self) -> int {
        match self {
            PointIndex::SledPeg => 0,
            PointIndex::SledTail => 1,
            PointIndex::SledNose => 2,
            PointIndex::SledRope => 3,
            PointIndex::BoshButt => 4,
            PointIndex::BoshShoulder => 5,
            PointIndex::BoshLeftHand => 6,
            PointIndex::BoshRightHand => 7,
            PointIndex::BoshLeftFoot => 8,
            PointIndex::BoshRightFoot => 9,
        }
    }

    /// Whether the role belongs to the sled; the others belong to the rider.
    pub open spec fn is_sled_spec(self) -> bool {
        self.slot_spec() < 4
    }

    /// The place of the role in an entity's table of points.
    pub fn slot(self) -> (r: usize)
        ensures
            r == self.slot_spec(),
            r < POINT_COUNT,
    {
        match self {
            PointIndex::SledPeg => 0,
            PointIndex::SledTail => 1,
            PointIndex::SledNose => 2,
            PointIndex::SledRope => 3,
            PointIndex::BoshButt => 4,
            PointIndex::BoshShoulder => 5,
            PointIndex::BoshLeftHand => 6,
            PointIndex::BoshRightHand => 7,
            PointIndex::BoshLeftFoot => 8,
            PointIndex::BoshRightFoot => 9,
        }
    }

    /// Whether the role belongs to the sled.
    pub fn is_sled(self) -> (r: bool)
        ensures
            r == self.is_sled_spec(),
    {
        self.slot() < 4
    }
}

/// A point of a body.
#[derive(Clone, Copy, Debug, PartialEq, Eq, Structural)]
pub struct EntityPoint {
    pub location: Vector2D,
    pub previous_location: Vector2D,
    /// The velocity with which the point entered the current frame.
    pub momentum: Vector2D,
    pub friction: u64,
}

/// How a bone holds its two points.
#[derive(Clone, Copy, Debug, PartialEq, Eq, Structural)]
pub enum BoneType {
    /// Keeps the points at the rest length and never breaks.
    Rigid,
    /// Pushes the points apart when they come closer than the rest length.
    Repel,
    /// Ties rider to sled. It breaks when stretched beyond its endurance,
    /// and lets go once any bone of the body has broken.
    Mount { endurance: u64 },
}

/// A bone between two points of a body.
#[derive(Clone, Copy, Debug, PartialEq, Eq, Structural)]
pub struct Bone {
    pub p1: PointIndex,
    pub p2: PointIndex,
    pub rest_length: u64,
    pub bone_type: BoneType,
}

impl Bone {
    /// Whether the bone can break.
    pub open spec fn breaking_spec(self) -> bool {
        self.bone_type is Mount
    }

    /// Whether the bone can break.
    pub fn breaking(&self) -> (r: bool)
        ensures
            r == self.breaking_spec(),
    {
        match self.bone_type {
            BoneType::Mount { .. } => true,
            _ => false,
        }
    }

    /// Whether both ends of the bone are on the sled (`sled`) or both on the
    /// rider (`!sled`).
    pub open spec fn within_spec(self, sled: bool) -> bool {
        self.p1.is_sled_spec() == sled && self.p2.is_sled_spec() == sled
    }

    /// Whether a half of a split body keeps the bone: it cannot break and
    /// both its ends are in that half.
    pub open spec fn kept_spec(self, sled: bool) -> bool {
        !self.breaking_spec() && self.within_spec(sled)
    }

    /// Whether a half of a split body keeps the bone.
    pub fn kept(&self, sled: bool) -> (r: bool)
        ensures
            r == self.kept_spec(sled),
    {
        !self.breaking() && self.p1.is_sled() == sled && self.p2.is_sled() == sled
    }
}

/// A joint between the bone from `a1` to `a2` and the bone from `b1` to
/// `b2`. It breaks when the second bone has turned to the other side of the
/// first: when the cross product of the two directions is negative.
#[derive(Clone, Copy, Debug, PartialEq, Eq, Structural)]
pub struct Joint {
    pub a1: PointIndex,
    pub a2: PointIndex,
    pub b1: PointIndex,
    pub b2: PointIndex,
}

impl Joint {
    /// Whether all four points of the joint are in one half of a split body.
    pub open spec fn kept_spec(self, sled: bool) -> bool {
        &&& self.a1.is_sled_spec() == sled
        &&& self.a2.is_sled_spec() == sled
        &&& self.b1.is_sled_spec() == sled
        &&& self.b2.is_sled_spec() == sled
    }

    /// Whether all four points of the joint are in one half of a split body.
    pub fn kept(&self, sled: bool) -> (r: bool)
        ensures
            r == self.kept_spec(sled),
    {
        self.a1.is_sled() == sled && self.a2.is_sled() == sled && self.b1.is_sled() == sled
            && self.b2.is_sled() == sled
    }
}

/// What an entity is: for each role the point that fills it, if any, and the
/// bones and joints in their declared order.
pub struct EntityView {
    pub points: Seq<Option<EntityPoint>>,
    pub bones: Seq<Bone>,
    pub joints: Seq<Joint>,
}

/// A jointed body: a rider on a sled, or after a split the rider or the sled
/// alone.
#[derive(Clone, Debug, PartialEq)]
pub struct Entity {
    /// One place per role, in the order of `PointIndex::slot`.
    pub points: Vec<Option<EntityPoint>>,
    pub bones: Vec<Bone>,
    pub joints: Vec<Joint>,
}

impl View for Entity {
    type V = EntityView;

    open spec fn view(&self) -> EntityView {
        EntityView { points: self.points@, bones: self.bones@, joints: self.joints@ }
    }
}

/// The bones of `bones` that a half of a split body keeps, in their order.
pub open spec fn kept_bones(bones: Seq<Bone>, sled: bool) -> Seq<Bone>
    decreases bones.len(),
{
    if bones.len() == 0 {
        Seq::empty()
    } else if bones.last().kept_spec(sled) {
        kept_bones(bones.drop_last(), sled).push(bones.last())
    } else {
        kept_bones(bones.drop_last(), sled)
    }
}

/// The joints of `joints` that a half of a split body keeps, in their order.
pub open spec fn kept_joints(joints: Seq<Joint>, sled: bool) -> Seq<Joint>
    decreases joints.len(),
{
    if joints.len() == 0 {
        Seq::empty()
    } else if joints.last().kept_spec(sled) {
        kept_joints(joints.drop_last(), sled).push(joints.last())
    } else {
        kept_joints(joints.drop_last(), sled)
    }
}

/// Every bone that a half keeps is unbreakable and has both ends in it.
pub proof fn lemma_kept_bones(bones: Seq<Bone>, sled: bool)
    ensures
        forall|i: int|
            0 <= i < kept_bones(bones, sled).len() ==> (#[trigger] kept_bones(
                bones,
                sled,
            )[i]).kept_spec(sled),
    decreases bones.len(),
{
    if bones.len() > 0 {
        let front = bones.drop_last();
        lemma_kept_bones(front, sled);
        let kept = kept_bones(bones, sled);
        assert forall|i: int| 0 <= i < kept.len() implies (#[trigger] kept[i]).kept_spec(sled) by {
            if i < kept_bones(front, sled).len() {
                assert(kept[i] == kept_bones(front, sled)[i]);
            }
        }
    }
}

/// Every joint that a half keeps has all its points in it.
pub proof fn lemma_kept_joints(joints: Seq<Joint>, sled: bool)
    ensures
        forall|i: int|
            0 <= i < kept_joints(joints, sled).len() ==> (#[trigger] kept_joints(
                joints,
                sled,
            )[i]).kept_spec(sled),
    decreases joints.len(),
{
    if joints.len() > 0 {
        let front = joints.drop_last();
        lemma_kept_joints(front, sled);
        let kept = kept_joints(joints, sled);
        assert forall|i: int| 0 <= i < kept.len() implies (#[trigger] kept[i]).kept_spec(sled) by {
            if i < kept_joints(front, sled).len() {
                assert(kept[i] == kept_joints(front, sled)[i]);
            }
        }
    }
}

impl EntityView {
    /// Whether the body has a point in the role `index`.
    pub open spec fn has(self, index: PointIndex) -> bool {
        self.points[index.slot_spec()] is Some
    }

    /// The point in the role `index`.
    pub open spec fn at(self, index: PointIndex) -> EntityPoint
        recommends
            self.has(index),
    {
        self.points[index.slot_spec()]->Some_0
    }

    /// The body with the point in the role `index` moved to `location`.
    pub open spec fn moved(self, index: PointIndex, location: Vector2D) -> EntityView {
        EntityView {
            points: self.points.update(
                index.slot_spec(),
                Some(EntityPoint { location, ..self.at(index) }),
            ),
            ..self
        }
    }

    /// The table has one place per role, and every bone and every joint names
    /// only roles that are filled.
    pub open spec fn wf(self) -> bool {
        &&& self.points.len() == POINT_COUNT
        &&& forall|i: int|
            0 <= i < self.bones.len() ==> self.has((#[trigger] self.bones[i]).p1) && self.has(
                self.bones[i].p2,
            )
        &&& forall|i: int|
            0 <= i < self.joints.len() ==> {
                &&& self.has((#[trigger] self.joints[i]).a1)
                &&& self.has(self.joints[i].a2)
                &&& self.has(self.joints[i].b1)
                &&& self.has(self.joints[i].b2)
            }
    }

    /// No bone of the body can break.
    pub open spec fn unbreakable(self) -> bool {
        forall|i: int| 0 <= i < self.bones.len() ==> !(#[trigger] self.bones[i]).breaking_spec()
    }

    /// Two bodies with the same roles filled and the same bones and joints.
    pub open spec fn same_shape(self, other: EntityView) -> bool {
        &&& self.points.len() == other.points.len()
        &&& forall|i: int|
            0 <= i < self.points.len() ==> ((#[trigger] self.points[i]) is Some
                <==> other.points[i] is Some)
        &&& self.bones == other.bones
        &&& self.joints == other.joints
    }

    /// The points of one half: those of the sled (`sled`) or those of the
    /// rider (`!sled`), each in its place; the other places are empty.
    pub open spec fn half_points(self, sled: bool) -> Seq<Option<EntityPoint>> {
        Seq::new(
            self.points.len(),
            |i: int|
                if (i < 4) == sled {
                    self.points[i]
                } else {
                    None
                },
        )
    }

    /// One half of the body after a split: its points, the unbreakable bones
    /// between them, and the joints among them.
    pub open spec fn half(self, sled: bool) -> EntityView {
        EntityView {
            points: self.half_points(sled),
            bones: kept_bones(self.bones, sled),
            joints: kept_joints(self.joints, sled),
        }
    }

    /// A half of a well-formed body is well-formed and cannot break.
    pub proof fn lemma_half_wf(self, sled: bool)
        requires
            self.wf(),
        ensures
            self.half(sled).wf(),
            self.half(sled).unbreakable(),
    {
        let h = self.half(sled);
        lemma_kept_bones(self.bones, sled);
        lemma_kept_joints(self.joints, sled);
        lemma_kept_bones_from(self.bones, sled);
        lemma_kept_joints_from(self.joints, sled);
        assert forall|i: int| 0 <= i < h.bones.len() implies h.has((#[trigger] h.bones[i]).p1)
            && h.has(h.bones[i].p2) by {
            let b = h.bones[i];
            assert(b.kept_spec(sled));
            assert(self.bones.contains(b));
            let j = choose|j: int| 0 <= j < self.bones.len() && self.bones[j] == b;
            assert(self.has(self.bones[j].p1));
        }
        assert forall|i: int| 0 <= i < h.joints.len() implies {
            &&& h.has((#[trigger] h.joints[i]).a1)
            &&& h.has(h.joints[i].a2)
            &&& h.has(h.joints[i].b1)
            &&& h.has(h.joints[i].b2)
        } by {
            let t = h.joints[i];
            assert(t.kept_spec(sled));
            assert(self.joints.contains(t));
            let j = choose|j: int| 0 <= j < self.joints.len() && self.joints[j] == t;
            assert(self.has(self.joints[j].a1));
        }
    }
}

/// Every bone that a half keeps is a bone of the whole.
pub proof fn lemma_kept_bones_from(bones: Seq<Bone>, sled: bool)
    ensures
        forall|i: int|
            0 <= i < kept_bones(bones, sled).len() ==> bones.contains(
                #[trigger] kept_bones(bones, sled)[i],
            ),
    decreases bones.len(),
{
    if bones.len() > 0 {
        let front = bones.drop_last();
        lemma_kept_bones_from(front, sled);
        let kept = kept_bones(bones, sled);
        assert forall|i: int| 0 <= i < kept.len() implies bones.contains(#[trigger] kept[i]) by {
            if i < kept_bones(front, sled).len() {
                let b = kept_bones(front, sled)[i];
                assert(front.contains(b));
                let j = choose|j: int| 0 <= j < front.len() && front[j] == b;
                assert(bones[j] == b);
            } else {
                assert(bones[bones.len() - 1] == kept[i]);
            }
        }
    }
}

/// Every joint that a half keeps is a joint of the whole.
pub proof fn lemma_kept_joints_from(joints: Seq<Joint>, sled: bool)
    ensures
        forall|i: int|
            0 <= i < kept_joints(joints, sled).len() ==> joints.contains(
                #[trigger] kept_joints(joints, sled)[i],
            ),
    decreases joints.len(),
{
    if joints.len() > 0 {
        let front = joints.drop_last();
        lemma_kept_joints_from(front, sled);
        let kept = kept_joints(joints, sled);
        assert forall|i: int| 0 <= i < kept.len() implies joints.contains(#[trigger] kept[i]) by {
            if i < kept_joints(front, sled).len() {
                let t = kept_joints(front, sled)[i];
                assert(front.contains(t));
                let j = choose|j: int| 0 <= j < front.len() && front[j] == t;
                assert(joints[j] == t);
            } else {
                assert(joints[joints.len() - 1] == kept[i]);
            }
        }
    }
}

impl Entity {
    /// Whether the entity is well-formed; see `EntityView::wf`.
    pub open spec fn wf(self) -> bool {
        self@.wf()
    }

    /// Whether the entity is well-formed: its table of points has one place
    /// per role, and its bones and joints name only roles that are filled.
    pub fn is_wf(&self) -> (r: bool)
        ensures
            r == self.wf(),
    {
        if self.points.len() != POINT_COUNT {
            return false;
        }
        let mut i: usize = 0;
        while i < self.bones.len()
            invariant
                self.points@.len() == POINT_COUNT,
                i <= self.bones.len(),
                forall|j: int|
                    0 <= j < i ==> self@.has((#[trigger] self@.bones[j]).p1) && self@.has(
                        self@.bones[j].p2,
                    ),
            decreases self.bones.len() - i,
        {
            if !self.has_point(self.bones[i].p1) || !self.has_point(self.bones[i].p2) {
                proof {
                    assert(!(self@.has(self@.bones[i as int].p1) && self@.has(
                        self@.bones[i as int].p2,
                    )));
                }
                return false;
            }
            i += 1;
        }
        let mut i: usize = 0;
        while i < self.joints.len()
            invariant
                self.points@.len() == POINT_COUNT,
                i <= self.joints.len(),
                forall|j: int|
                    0 <= j < i ==> {
                        &&& self@.has((#[trigger] self@.joints[j]).a1)
                        &&& self@.has(self@.joints[j].a2)
                        &&& self@.has(self@.joints[j].b1)
                        &&& self@.has(self@.joints[j].b2)
                    },
            decreases self.joints.len() - i,
        {
            let joint = self.joints[i];
            if !self.has_point(joint.a1) || !self.has_point(joint.a2) || !self.has_point(joint.b1)
                || !self.has_point(joint.b2) {
                proof {
                    assert(!({
                        &&& self@.has(self@.joints[i as int].a1)
                        &&& self@.has(self@.joints[i as int].a2)
                        &&& self@.has(self@.joints[i as int].b1)
                        &&& self@.has(self@.joints[i as int].b2)
                    }));
                }
                return false;
            }
            i += 1;
        }
        true
    }

    /// Whether the body has a point in the role `index`.
    pub fn has_point(&self, index: PointIndex) -> (r: bool)
        requires
            self.points@.len() == POINT_COUNT,
        ensures
            r == self@.has(index),
    {
        self.points[index.slot()].is_some()
    }

    /// The point in the role `index`, which the body has to have.
    pub fn point_at(&self, index: PointIndex) -> (r: EntityPoint)
        requires
            self.points@.len() == POINT_COUNT,
            self@.has(index),
        ensures
            r == self@.at(index),
    {
        match self.points[index.slot()] {
            Some(point) => point,
            None => EntityPoint {
                location: Vector2D(ZERO, ZERO),
                previous_location: Vector2D(ZERO, ZERO),
                momentum: Vector2D(ZERO, ZERO),
                friction: ZERO,
            },
        }
    }

    /// Moves the point in the role `index` to `location`.
    pub fn move_point(&mut self, index: PointIndex, location: Vector2D)
        requires
            old(self).points@.len() == POINT_COUNT,
            old(self)@.has(index),
        ensures
            final(self)@ == old(self)@.moved(index, location),
            final(self)@.same_shape(old(self)@),
    {
        let point = self.point_at(index);
        self.points[index.slot()] = Some(EntityPoint { location, ..point });
    }

    /// Whether the two entities have the same points, bones and joints.
    pub fn equals(&self, other: &Entity) -> (r: bool)
        ensures
            r == (self@ == other@),
    {
        if self.points.len() != other.points.len() || self.bones.len() != other.bones.len()
            || self.joints.len() != other.joints.len() {
            return false;
        }
        let mut i: usize = 0;
        while i < self.points.len()
            invariant
                i <= self.points.len(),
                self.points.len() == other.points.len(),
                forall|j: int| 0 <= j < i ==> self.points@[j] == other.points@[j],
            decreases self.points.len() - i,
        {
            let alike = match (self.points[i], other.points[i]) {
                (Some(a), Some(b)) => a == b,
                (None, None) => true,
                _ => false,
            };
            if !alike {
                return false;
            }
            i += 1;
        }
        let mut i: usize = 0;
        while i < self.bones.len()
            invariant
                i <= self.bones.len(),
                self.bones.len() == other.bones.len(),
                forall|j: int| 0 <= j < i ==> self.bones@[j] == other.bones@[j],
            decreases self.bones.len() - i,
        {
            if self.bones[i] != other.bones[i] {
                return false;
            }
            i += 1;
        }
        let mut i: usize = 0;
        while i < self.joints.len()
            invariant
                i <= self.joints.len(),
                self.joints.len() == other.joints.len(),
                forall|j: int| 0 <= j < i ==> self.joints@[j] == other.joints@[j],
            decreases self.joints.len() - i,
        {
            if self.joints[i] != other.joints[i] {
                return false;
            }
            i += 1;
        }
        proof {
            assert(self.points@ =~= other.points@);
            assert(self.bones@ =~= other.bones@);
            assert(self.joints@ =~= other.joints@);
        }
        true
    }

    /// A copy of the entity.
    pub fn duplicate(&self) -> (r: Entity)
        ensures
            r@ == self@,
    {
        let mut points: Vec<Option<EntityPoint>> = Vec::new();
        let mut i: usize = 0;
        while i < self.points.len()
            invariant
                i <= self.points.len(),
                points@ == self.points@.take(i as int),
            decreases self.points.len() - i,
        {
            points.push(self.points[i]);
            proof {
                assert(self.points@.take(i as int).push(self.points@[i as int])
                    =~= self.points@.take(i + 1));
            }
            i += 1;
        }
        let mut bones: Vec<Bone> = Vec::new();
        let mut i: usize = 0;
        while i < self.bones.len()
            invariant
                i <= self.bones.len(),
                bones@ == self.bones@.take(i as int),
            decreases self.bones.len() - i,
        {
            bones.push(self.bones[i]);
            proof {
                assert(self.bones@.take(i as int).push(self.bones@[i as int])
                    =~= self.bones@.take(i + 1));
            }
            i += 1;
        }
        let mut joints: Vec<Joint> = Vec::new();
        let mut i: usize = 0;
        while i < self.joints.len()
            invariant
                i <= self.joints.len(),
                joints@ == self.joints@.take(i as int),
            decreases self.joints.len() - i,
        {
            joints.push(self.joints[i]);
            proof {
                assert(self.joints@.take(i as int).push(self.joints@[i as int])
                    =~= self.joints@.take(i + 1));
            }
            i += 1;
        }
        proof {
            assert(self.points@.take(self.points.len() as int) =~= self.points@);
            assert(self.bones@.take(self.bones.len() as int) =~= self.bones@);
            assert(self.joints@.take(self.joints.len() as int) =~= self.joints@);
        }
        Entity { points, bones, joints }
    }

    /// One half of the body: the sled's (`sled`) or the rider's (`!sled`).
    fn half(&self, sled: bool) -> (r: Entity)
        requires
            self.points@.len() == POINT_COUNT,
        ensures
            r@ == self@.half(sled),
    {
        let mut points: Vec<Option<EntityPoint>> = Vec::new();
        let mut i: usize = 0;
        while i < self.points.len()
            invariant
                i <= self.points.len(),
                points@.len() == i,
                forall|j: int| 0 <= j < i ==> points@[j] == self@.half_points(sled)[j],
            decreases self.points.len() - i,
        {
            if (i < 4) == sled {
                points.push(self.points[i]);
            } else {
                points.push(None);
            }
            i += 1;
        }
        let mut bones: Vec<Bone> = Vec::new();
        let mut i: usize = 0;
        while i < self.bones.len()
            invariant
                i <= self.bones.len(),
                bones@ == kept_bones(self.bones@.take(i as int), sled),
            decreases self.bones.len() - i,
        {
            proof {
                assert(self.bones@.take(i + 1).drop_last() =~= self.bones@.take(i as int));
            }
            if self.bones[i].kept(sled) {
                bones.push(self.bones[i]);
            }
            i += 1;
        }
        let mut joints: Vec<Joint> = Vec::new();
        let mut i: usize = 0;
        while i < self.joints.len()
            invariant
                i <= self.joints.len(),
                joints@ == kept_joints(self.joints@.take(i as int), sled),
            decreases self.joints.len() - i,
        {
            proof {
                assert(self.joints@.take(i + 1).drop_last() =~= self.joints@.take(i as int));
            }
            if self.joints[i].kept(sled) {
                joints.push(self.joints[i]);
            }
            i += 1;
        }
        proof {
            assert(points@ =~= self@.half_points(sled));
            assert(self.bones@.take(self.bones.len() as int) =~= self.bones@);
            assert(self.joints@.take(self.joints.len() as int) =~= self.joints@);
        }
        Entity { points, bones, joints }
    }

    /// Splits the body into rider and sled, in that order. Each half has its
    /// own points, the unbreakable bones between them and the joints among
    /// them; what tied the two together is gone.
    pub fn split(&self) -> (r: (Entity, Entity))
        requires
            self.wf(),
        ensures
            r.0@ == self@.half(false),
            r.1@ == self@.half(true),
            r.0.wf(),
            r.1.wf(),
            r.0@.unbreakable(),
            r.1@.unbreakable(),
    {
        proof {
            self@.lemma_half_wf(false);
            self@.lemma_half_wf(true);
        }
        (self.half(false), self.half(true))
    }
}

/// `5.0`
pub const FIVE: u64 = 0x4014_0000_0000_0000;

/// `10.0`
pub const TEN_UNITS: u64 = 0x4024_0000_0000_0000;

/// `15.0`
pub const FIFTEEN: u64 = 0x402e_0000_0000_0000;

/// `17.5`
pub const SEVENTEEN_HALF: u64 = 0x4031_8000_0000_0000;

/// `11.5`
pub const ELEVEN_HALF: u64 = 0x4027_0000_0000_0000;

/// `-5.0`
pub const MINUS_FIVE: u64 = 0xc014_0000_0000_0000;

/// `-5.5`
pub const MINUS_FIVE_HALF: u64 = 0xc016_0000_0000_0000;

/// `0.8`, the friction of peg, butt and shoulder.
pub const FRICTION_HIGH: u64 = 0x3fe9_9999_9999_999a;

/// `0.1`, the friction of the hands.
pub const FRICTION_LOW: u64 = 0x3fb9_9999_9999_999a;

/// `0.4`, the speed to the right with which a rider starts.
pub const START_SPEED: u64 = 0x3fd9_9999_9999_999a;

/// `0.057`, the share of its rest length by which a mount bone may be
/// stretched before it breaks.
pub const MOUNT_ENDURANCE: u64 = 0x3fad_2f1a_9fbe_76c9;

/// A point at rest at `(x, y)` in a body that starts with `START_SPEED` to
/// the right: it was `START_SPEED` further left one frame ago.
pub open spec fn start_point_spec(x: u64, y: u64, friction: u64) -> EntityPoint {
    EntityPoint {
        location: Vector2D(x, y),
        previous_location: Vector2D(difference_spec(x, START_SPEED), y),
        momentum: Vector2D(START_SPEED, ZERO),
        friction,
    }
}

/// A bone of the given type between two points of `points`. Its rest length
/// is the distance between the two points as they stand, halved for a bone
/// that repels.
pub open spec fn bone_between_spec(
    points: Seq<Option<EntityPoint>>,
    p1: PointIndex,
    p2: PointIndex,
    bone_type: BoneType,
) -> Bone {
    let a = points[p1.slot_spec()]->Some_0.location;
    let b = points[p2.slot_spec()]->Some_0.location;
    let distance = a.minus_spec(b).length_spec();
    Bone {
        p1,
        p2,
        rest_length: if bone_type is Repel {
            product_spec(distance, HALF)
        } else {
            distance
        },
        bone_type,
    }
}

/// The points of the default rider on its sled.
pub open spec fn default_points_spec() -> Seq<Option<EntityPoint>> {
    seq![
        Some(start_point_spec(ZERO, ZERO, FRICTION_HIGH)),
        Some(start_point_spec(ZERO, FIVE, ZERO)),
        Some(start_point_spec(FIFTEEN, FIVE, ZERO)),
        Some(start_point_spec(SEVENTEEN_HALF, ZERO, ZERO)),
        Some(start_point_spec(FIVE, ZERO, FRICTION_HIGH)),
        Some(start_point_spec(FIVE, MINUS_FIVE_HALF, FRICTION_HIGH)),
        Some(start_point_spec(ELEVEN_HALF, MINUS_FIVE, FRICTION_LOW)),
        Some(start_point_spec(ELEVEN_HALF, MINUS_FIVE, FRICTION_LOW)),
        Some(start_point_spec(TEN_UNITS, FIVE, ZERO)),
        Some(start_point_spec(TEN_UNITS, FIVE, ZERO)),
    ]
}

/// The bones of the default rider on its sled: the sled's frame, the bones
/// that mount the rider on the sled, the rider's limbs, and two bones that
/// keep the shoulder off the feet.
pub open spec fn default_bones_spec() -> Seq<Bone> {
    let points = default_points_spec();
    seq![
        bone_between_spec(points, PointIndex::SledPeg, PointIndex::SledTail, BoneType::Rigid),
        bone_between_spec(points, PointIndex::SledTail, PointIndex::SledNose, BoneType::Rigid),
        bone_between_spec(points, PointIndex::SledNose, PointIndex::SledRope, BoneType::Rigid),
        bone_between_spec(points, PointIndex::SledRope, PointIndex::SledPeg, BoneType::Rigid),
        bone_between_spec(points, PointIndex::SledPeg, PointIndex::SledNose, BoneType::Rigid),
        bone_between_spec(points, PointIndex::SledRope, PointIndex::SledTail, BoneType::Rigid),
        bone_between_spec(points, PointIndex::SledPeg, PointIndex::BoshButt, BoneType::Mount { endurance: MOUNT_ENDURANCE }),
        bone_between_spec(points, PointIndex::SledTail, PointIndex::BoshButt, BoneType::Mount { endurance: MOUNT_ENDURANCE }),
        bone_between_spec(points, PointIndex::SledNose, PointIndex::BoshButt, BoneType::Mount { endurance: MOUNT_ENDURANCE }),
        bone_between_spec(points, PointIndex::BoshShoulder, PointIndex::BoshButt, BoneType::Rigid),
        bone_between_spec(points, PointIndex::BoshShoulder, PointIndex::BoshLeftHand, BoneType::Rigid),
        bone_between_spec(points, PointIndex::BoshShoulder, PointIndex::BoshRightHand, BoneType::Rigid),
        bone_between_spec(points, PointIndex::BoshButt, PointIndex::BoshLeftFoot, BoneType::Rigid),
        bone_between_spec(points, PointIndex::BoshButt, PointIndex::BoshRightFoot, BoneType::Rigid),
        bone_between_spec(points, PointIndex::BoshShoulder, PointIndex::SledPeg, BoneType::Mount { endurance: MOUNT_ENDURANCE }),
        bone_between_spec(points, PointIndex::SledRope, PointIndex::BoshLeftHand, BoneType::Mount { endurance: MOUNT_ENDURANCE }),
        bone_between_spec(points, PointIndex::SledRope, PointIndex::BoshRightHand, BoneType::Mount { endurance: MOUNT_ENDURANCE }),
        bone_between_spec(points, PointIndex::BoshLeftFoot, PointIndex::SledNose, BoneType::Mount { endurance: MOUNT_ENDURANCE }),
        bone_between_spec(points, PointIndex::BoshRightFoot, PointIndex::SledNose, BoneType::Mount { endurance: MOUNT_ENDURANCE }),
        bone_between_spec(points, PointIndex::BoshShoulder, PointIndex::BoshLeftFoot, BoneType::Repel),
        bone_between_spec(points, PointIndex::BoshShoulder, PointIndex::BoshRightFoot, BoneType::Repel),
    ]
}

/// The joint of the default rider: the spine, from shoulder to butt, against
/// the sled's top, from rope to peg.
pub open spec fn default_joints_spec() -> Seq<Joint> {
    seq![
        Joint {
            a1: PointIndex::BoshShoulder,
            a2: PointIndex::BoshButt,
            b1: PointIndex::SledRope,
            b2: PointIndex::SledPeg,
        },
    ]
}

/// A point at rest at `(x, y)` in a body that starts with `START_SPEED`.
fn start_point(x: u64, y: u64, friction: u64) -> (r: EntityPoint)
    ensures
        r == start_point_spec(x, y, friction),
{
    EntityPoint {
        location: Vector2D(x, y),
        previous_location: Vector2D(difference(x, START_SPEED), y),
        momentum: Vector2D(START_SPEED, ZERO),
        friction,
    }
}

/// A bone of the given type between two points of `points`.
fn bone_between(
    points: &Vec<Option<EntityPoint>>,
    p1: PointIndex,
    p2: PointIndex,
    bone_type: BoneType,
) -> (r: Bone)
    requires
        points@.len() == POINT_COUNT,
        points@[p1.slot_spec()] is Some,
        points@[p2.slot_spec()] is Some,
    ensures
        r == bone_between_spec(points@, p1, p2, bone_type),
{
    let a = match points[p1.slot()] {
        Some(point) => point.location,
        None => Vector2D(ZERO, ZERO),
    };
    let b = match points[p2.slot()] {
        Some(point) => point.location,
        None => Vector2D(ZERO, ZERO),
    };
    let distance = a.minus(b).length();
    let rest_length = match bone_type {
        BoneType::Repel => soft_product(distance, HALF),
        _ => distance,
    };
    Bone { p1, p2, rest_length, bone_type }
}

impl Entity {
    /// The default rider on its sled.
    pub open spec fn default_boshsled_spec() -> EntityView {
        EntityView {
            points: default_points_spec(),
            bones: default_bones_spec(),
            joints: default_joints_spec(),
        }
    }

    /// The default rider on its sled, at the origin, moving to the right.
    pub fn default_boshsled() -> (r: Entity)
        ensures
            r@ == Entity::default_boshsled_spec(),
            r.wf(),
    {
        let mut points: Vec<Option<EntityPoint>> = Vec::new();
        points.push(Some(start_point(ZERO, ZERO, FRICTION_HIGH)));
        points.push(Some(start_point(ZERO, FIVE, ZERO)));
        points.push(Some(start_point(FIFTEEN, FIVE, ZERO)));
        points.push(Some(start_point(SEVENTEEN_HALF, ZERO, ZERO)));
        points.push(Some(start_point(FIVE, ZERO, FRICTION_HIGH)));
        points.push(Some(start_point(FIVE, MINUS_FIVE_HALF, FRICTION_HIGH)));
        points.push(Some(start_point(ELEVEN_HALF, MINUS_FIVE, FRICTION_LOW)));
        points.push(Some(start_point(ELEVEN_HALF, MINUS_FIVE, FRICTION_LOW)));
        points.push(Some(start_point(TEN_UNITS, FIVE, ZERO)));
        points.push(Some(start_point(TEN_UNITS, FIVE, ZERO)));
        proof {
            assert(points@ =~= default_points_spec());
        }
        let mut bones: Vec<Bone> = Vec::new();
        bones.push(bone_between(&points, PointIndex::SledPeg, PointIndex::SledTail, BoneType::Rigid));
        bones.push(bone_between(&points, PointIndex::SledTail, PointIndex::SledNose, BoneType::Rigid));
        bones.push(bone_between(&points, PointIndex::SledNose, PointIndex::SledRope, BoneType::Rigid));
        bones.push(bone_between(&points, PointIndex::SledRope, PointIndex::SledPeg, BoneType::Rigid));
        bones.push(bone_between(&points, PointIndex::SledPeg, PointIndex::SledNose, BoneType::Rigid));
        bones.push(bone_between(&points, PointIndex::SledRope, PointIndex::SledTail, BoneType::Rigid));
        bones.push(bone_between(&points, PointIndex::SledPeg, PointIndex::BoshButt, BoneType::Mount { endurance: MOUNT_ENDURANCE }));
        bones.push(bone_between(&points, PointIndex::SledTail, PointIndex::BoshButt, BoneType::Mount { endurance: MOUNT_ENDURANCE }));
        bones.push(bone_between(&points, PointIndex::SledNose, PointIndex::BoshButt, BoneType::Mount { endurance: MOUNT_ENDURANCE }));
        bones.push(bone_between(&points, PointIndex::BoshShoulder, PointIndex::BoshButt, BoneType::Rigid));
        bones.push(bone_between(&points, PointIndex::BoshShoulder, PointIndex::BoshLeftHand, BoneType::Rigid));
        bones.push(bone_between(&points, PointIndex::BoshShoulder, PointIndex::BoshRightHand, BoneType::Rigid));
        bones.push(bone_between(&points, PointIndex::BoshButt, PointIndex::BoshLeftFoot, BoneType::Rigid));
        bones.push(bone_between(&points, PointIndex::BoshButt, PointIndex::BoshRightFoot, BoneType::Rigid));
        bones.push(bone_between(&points, PointIndex::BoshShoulder, PointIndex::SledPeg, BoneType::Mount { endurance: MOUNT_ENDURANCE }));
        bones.push(bone_between(&points, PointIndex::SledRope, PointIndex::BoshLeftHand, BoneType::Mount { endurance: MOUNT_ENDURANCE }));
        bones.push(bone_between(&points, PointIndex::SledRope, PointIndex::BoshRightHand, BoneType::Mount { endurance: MOUNT_ENDURANCE }));
        bones.push(bone_between(&points, PointIndex::BoshLeftFoot, PointIndex::SledNose, BoneType::Mount { endurance: MOUNT_ENDURANCE }));
        bones.push(bone_between(&points, PointIndex::BoshRightFoot, PointIndex::SledNose, BoneType::Mount { endurance: MOUNT_ENDURANCE }));
        bones.push(bone_between(&points, PointIndex::BoshShoulder, PointIndex::BoshLeftFoot, BoneType::Repel));
        bones.push(bone_between(&points, PointIndex::BoshShoulder, PointIndex::BoshRightFoot, BoneType::Repel));
        proof {
            assert(bones@ =~= default_bones_spec());
        }
        let mut joints: Vec<Joint> = Vec::new();
        joints.push(
            Joint {
                a1: PointIndex::BoshShoulder,
                a2: PointIndex::BoshButt,
                b1: PointIndex::SledRope,
                b2: PointIndex::SledPeg,
            },
        );
        proof {
            assert(joints@ =~= default_joints_spec());
        }
        Entity { points, bones, joints }
    }
}

} // verus!
