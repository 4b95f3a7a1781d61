//! From the entities of one frame to those of the next.

use vstd::prelude::*;
use crate::physics::entity_physics::{
    apply_all_physics_spec, default_gravity_spec, Outcome, UpdateBonesResult, World, ITERATIONS,
};
use crate::rider::{Entity, EntityView};
use crate::track::Track;

verus! {

/// What each entity of a list is.
pub open spec fn views(entities: Seq<Entity>) -> Seq<EntityView> {
    Seq::new(entities.len(), |i: int| entities[i]@)
}

/// Whether every body of a list is well-formed.
pub open spec fn all_wf(entities: Seq<EntityView>) -> bool {
    forall|i: int| 0 <= i < entities.len() ==> (#[trigger] entities[i]).wf()
}

/// The bodies that a step leaves: the one body, or the rider and then the
/// sled.
pub open spec fn outcome_entities(outcome: Outcome) -> Seq<EntityView> {
    match outcome {
        Outcome::Same(entity) => seq![entity],
        Outcome::Broken(bosh, sled) => seq![bosh, sled],
    }
}

/// A frame of one entity with the usual gravity and number of rounds.
pub open spec fn step_spec(entity: EntityView, world: World) -> Outcome {
    apply_all_physics_spec(entity, world, default_gravity_spec(), ITERATIONS as nat)
}

/// The next frame's bodies that come of the first `count` entities: each
/// entity's own, in the order of the entities.
pub open spec fn frame_after_prefix_spec(entities: Seq<EntityView>, world: World, count: nat) -> Seq<
    EntityView,
>
    decreases count,
{
    if count == 0 {
        Seq::empty()
    } else {
        frame_after_prefix_spec(entities, world, (count - 1) as nat) + outcome_entities(
            step_spec(entities[count - 1], world),
        )
    }
}

/// The bodies of the next frame.
pub open spec fn frame_after_spec(entities: Seq<EntityView>, world: World) -> Seq<EntityView> {
    frame_after_prefix_spec(entities, world, entities.len())
}

/// The bodies of frame `frame`, counted from the bodies `start` of frame 0.
pub open spec fn frame_spec(start: Seq<EntityView>, world: World, frame: nat) -> Seq<EntityView>
    decreases frame,
{
    if frame == 0 {
        start
    } else {
        frame_after_spec(frame_spec(start, world, (frame - 1) as nat), world)
    }
}

/// Whether every entity of the list is well-formed.
pub fn entities_wf(entities: &Vec<Entity>) -> (r: bool)
    ensures
        r == all_wf(views(entities@)),
{
    let mut i: usize = 0;
    while i < entities.len()
        invariant
            i <= entities.len(),
            forall|j: int| 0 <= j < i ==> (#[trigger] views(entities@)[j]).wf(),
        decreases entities.len() - i,
    {
        if !entities[i].is_wf() {
            proof {
                assert(!views(entities@)[i as int].wf());
            }
            return false;
        }
        i += 1;
    }
    true
}

/// A copy of a list of entities.
pub fn duplicate_all(entities: &Vec<Entity>) -> (r: Vec<Entity>)
    ensures
        views(r@) == views(entities@),
{
    let mut copies: Vec<Entity> = Vec::new();
    let mut i: usize = 0;
    while i < entities.len()
        invariant
            i <= entities.len(),
            copies@.len() == i,
            forall|j: int| 0 <= j < i ==> copies@[j]@ == entities@[j]@,
        decreases entities.len() - i,
    {
        copies.push(entities[i].duplicate());
        i += 1;
    }
    proof {
        assert(views(copies@) =~= views(entities@));
    }
    copies
}

/// The entities of the next frame: each entity goes through a frame of
/// physics on the track's lines; one that broke gives its rider and then its
/// sled.
pub fn frame_after(entities: &Vec<Entity>, track: &Track) -> (r: Vec<Entity>)
    requires
        track.wf(),
        all_wf(views(entities@)),
    ensures
        views(r@) == frame_after_spec(views(entities@), track.world()),
        all_wf(views(r@)),
{
    let mut next: Vec<Entity> = Vec::new();
    let mut i: usize = 0;
    while i < entities.len()
        invariant
            track.wf(),
            all_wf(views(entities@)),
            i <= entities.len(),
            views(next@) == frame_after_prefix_spec(views(entities@), track.world(), i as nat),
            all_wf(views(next@)),
        decreases entities.len() - i,
    {
        let ghost before = views(next@);
        proof {
            assert(views(entities@)[i as int].wf());
        }
        let outcome = entities[i].duplicate().apply_all_physics_ez(track);
        match outcome {
            UpdateBonesResult::Same(entity) => {
                next.push(entity);
                proof {
                    assert(views(next@) =~= before + seq![entity@]);
                }
            },
            UpdateBonesResult::Broken(bosh, sled) => {
                next.push(bosh);
                next.push(sled);
                proof {
                    assert(views(next@) =~= before + seq![bosh@, sled@]);
                }
            },
        }
        proof {
            assert forall|j: int| 0 <= j < views(next@).len() implies (#[trigger] views(
                next@,
            )[j]).wf() by {
                if j < before.len() {
                    assert(views(next@)[j] == before[j]);
                }
            }
        }
        i += 1;
    }
    next
}

} // verus!
