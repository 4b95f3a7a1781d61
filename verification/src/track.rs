//! A track: its lines, its entities, and where the entities are in every
//! frame.
//!
//! The track remembers the frames it has worked out. Frame 0 is what it was
//! given. Each later frame comes from the one before it by one frame of
//! physics. Whenever a line or an entity is added or removed, every frame but
//! frame 0 is forgotten.

use vstd::prelude::*;
use crate::grid::{box_spec, has_match, near_spec, without_last_match, Grid};
use crate::ieee::{product_spec, soft_product, total_key, total_lt};
use crate::line::{Line, LineBuilder, DEFAULT_EXTENSION_RATIO};
use crate::physics::advance_frame::{all_wf, duplicate_all, frame_after, frame_spec, views};
use crate::physics::entity_physics::World;
use crate::physics::line_physics::{well_depth, well_depth_spec};
use crate::rider::{Entity, EntityPoint, EntityView};
use crate::vector::Vector2D;

verus! {

/// `14.0`, the usual size of a grid cell.
pub const DEFAULT_CELL_SIZE: u64 = 0x402c_0000_0000_0000;

/// `10.0`, the usual depth of a gravity well.
pub const DEFAULT_GRAVITY_WELL_HEIGHT: u64 = 0x4024_0000_0000_0000;

/// The settings of a track.
#[derive(Clone, Copy, Debug)]
pub struct TrackMeta {
    /// The share of its length by which an extended end of a line reaches
    /// out.
    pub line_extension_ratio: u64,
    /// How far below a line its gravity well reaches.
    pub gravity_well_height: u64,
    /// Whether a rider may get back on the sled. The physics does not look
    /// at it.
    pub remount: bool,
    /// The size of a grid cell.
    pub cell_size: u64,
}

impl Default for TrackMeta {
    fn default() -> (r: TrackMeta)
        ensures
            r == TrackMeta::default_spec(),
    {
        TrackMeta {
            line_extension_ratio: DEFAULT_EXTENSION_RATIO,
            gravity_well_height: DEFAULT_GRAVITY_WELL_HEIGHT,
            remount: false,
            cell_size: DEFAULT_CELL_SIZE,
        }
    }
}

impl TrackMeta {
    /// The usual settings: ratio 0.25, well height 10, no remount, cell
    /// size 14.
    pub open spec fn default_spec() -> TrackMeta {
        TrackMeta {
            line_extension_ratio: DEFAULT_EXTENSION_RATIO,
            gravity_well_height: DEFAULT_GRAVITY_WELL_HEIGHT,
            remount: false,
            cell_size: DEFAULT_CELL_SIZE,
        }
    }
}

/// Whether `index` is the place of the first body of `entities` that equals
/// `entity`.
pub open spec fn is_first_equal(entities: Seq<EntityView>, entity: EntityView, index: int) -> bool {
    &&& 0 <= index < entities.len()
    &&& entities[index] == entity
    &&& forall|j: int| 0 <= j < index ==> entities[j] != entity
}

/// The nearer of the best end so far and `candidate`, as seen from `target`.
/// A candidate counts only if its squared distance comes before `limit` in
/// the total order, and it replaces the best only if it comes strictly
/// before it: of two ends equally near, the earlier stays.
pub open spec fn nearer_spec(
    best: Option<(Vector2D, u64)>,
    candidate: Vector2D,
    target: Vector2D,
    limit: u64,
) -> Option<(Vector2D, u64)> {
    let distance = candidate.distance_squared_spec(target);
    if total_key(distance) < total_key(limit) && (best is None || total_key(distance) < total_key(
        best->Some_0.1,
    )) {
        Some((candidate, distance))
    } else {
        best
    }
}

/// The nearest end among both ends of the first `count` lines, with its
/// squared distance; `None` when no end counts.
pub open spec fn nearest_end_spec(lines: Seq<Line>, count: nat, target: Vector2D, limit: u64)
    -> Option<(Vector2D, u64)>
    decreases count,
{
    if count == 0 {
        None
    } else {
        let line = lines[count - 1];
        nearer_spec(
            nearer_spec(
                nearest_end_spec(lines, (count - 1) as nat, target, limit),
                line.ends.0.location,
                target,
                limit,
            ),
            line.ends.1.location,
            target,
            limit,
        )
    }
}

/// Where a point snaps to: the nearest end of `lines` whose squared distance
/// is below `max_dist` squared, or the point itself when there is none.
pub open spec fn snap_spec(lines: Seq<Line>, max_dist: u64, to_snap: Vector2D) -> Vector2D {
    match nearest_end_spec(lines, lines.len(), to_snap, product_spec(max_dist, max_dist)) {
        Some((end, _)) => end,
        None => to_snap,
    }
}

/// A track.
#[derive(Clone, Debug)]
pub struct Track {
    pub meta: TrackMeta,
    grid: Grid,
    frames: Vec<Vec<Entity>>,
}

impl Track {
    /// The settings of the track.
    pub closed spec fn settings(self) -> TrackMeta {
        self.meta
    }

    /// The lines of the track, in the order in which they were added.
    pub closed spec fn lines(self) -> Seq<Line> {
        self.grid.lines()
    }

    /// What the track's lines mean to a point.
    pub open spec fn world(self) -> World {
        World {
            lines: self.lines(),
            cell_size: self.cell_size(),
            well_height: self.settings().gravity_well_height,
        }
    }

    /// The number of frames that the track remembers.
    pub closed spec fn cached_frames(self) -> nat {
        self.frames@.len()
    }

    /// The bodies of the remembered frame `frame`.
    pub closed spec fn cached(self, frame: int) -> Seq<EntityView> {
        views(self.frames@[frame]@)
    }

    /// The bodies of frame 0.
    pub open spec fn start(self) -> Seq<EntityView> {
        self.cached(0)
    }

    /// The track remembers frame 0 and the frames after it without a gap;
    /// each remembered frame is what the physics makes of frame 0 on the
    /// track's lines; every body is well-formed.
    pub closed spec fn wf(self) -> bool {
        &&& self.grid.wf()
        &&& self.frames@.len() >= 1
        &&& forall|i: int|
            0 <= i < self.frames@.len() ==> #[trigger] self.cached(i) == frame_spec(
                self.cached(0),
                self.world(),
                i as nat,
            )
        &&& forall|i: int| 0 <= i < self.frames@.len() ==> all_wf(#[trigger] self.cached(i))
    }

    /// The size of a cell of the track's grid.
    pub closed spec fn cell_size(self) -> u64 {
        self.grid.cell_size()
    }

    /// A track with the usual settings, the given entities in frame 0, and
    /// the given lines.
    pub fn new(starting_positions: Vec<Entity>, lines: Vec<Line>) -> (r: Track)
        requires
            all_wf(views(starting_positions@)),
        ensures
            r.wf(),
            r.settings() == TrackMeta::default_spec(),
            r.cell_size() == DEFAULT_CELL_SIZE,
            r.lines() == lines@,
            r.cached_frames() == 1,
            r.start() == views(starting_positions@),
    {
        Track::new_with_meta(starting_positions, lines, TrackMeta::default())
    }

    /// A track with the given settings, entities and lines.
    pub fn new_with_meta(starting_positions: Vec<Entity>, lines: Vec<Line>, meta: TrackMeta) -> (r:
        Track)
        requires
            all_wf(views(starting_positions@)),
        ensures
            r.wf(),
            r.settings() == meta,
            r.cell_size() == meta.cell_size,
            r.lines() == lines@,
            r.cached_frames() == 1,
            r.start() == views(starting_positions@),
    {
        let grid = Grid::new(lines, meta.cell_size);
        let mut frames: Vec<Vec<Entity>> = Vec::new();
        frames.push(starting_positions);
        Track { meta, grid, frames }
    }

    /// The settings of the track, as the field `meta` holds them.
    pub fn get_meta(&self) -> (r: TrackMeta)
        ensures
            r == self.settings(),
    {
        self.meta
    }

    /// How far below a line its gravity well reaches on this track.
    pub fn gravity_well_height(&self) -> (r: u64)
        ensures
            r == self.settings().gravity_well_height,
            r == self.world().well_height,
    {
        self.meta.gravity_well_height
    }

    /// The number of frames that the track remembers; at least 1.
    pub fn cached_len(&self) -> (r: usize)
        requires
            self.wf(),
        ensures
            r == self.cached_frames(),
            r >= 1,
    {
        self.frames.len()
    }

    /// A copy of the track: the same settings, the same lines in the same
    /// order, and the same remembered frames.
    pub fn duplicate(&self) -> (r: Track)
        requires
            self.wf(),
        ensures
            r.wf(),
            r.settings() == self.settings(),
            r.cell_size() == self.cell_size(),
            r.lines() == self.lines(),
            r.world() == self.world(),
            r.cached_frames() == self.cached_frames(),
            forall|i: int| 0 <= i < self.cached_frames() ==> r.cached(i) == self.cached(i),
            r.start() == self.start(),
    {
        let grid = self.grid.duplicate();
        let mut frames: Vec<Vec<Entity>> = Vec::new();
        let mut i: usize = 0;
        while i < self.frames.len()
            invariant
                i <= self.frames.len(),
                frames@.len() == i,
                forall|j: int| 0 <= j < i ==> views(frames@[j]@) == views(self.frames@[j]@),
            decreases self.frames.len() - i,
        {
            frames.push(duplicate_all(&self.frames[i]));
            i += 1;
        }
        let copy = Track { meta: self.meta, grid, frames };
        proof {
            assert(copy.world() == self.world());
            assert forall|i: int| 0 <= i < copy.frames@.len() implies #[trigger] copy.cached(i)
                == frame_spec(copy.cached(0), copy.world(), i as nat) && all_wf(copy.cached(i)) by {
                assert(copy.cached(i) == self.cached(i));
                assert(copy.cached(0) == self.cached(0));
                assert(all_wf(self.cached(i)));
            }
        }
        copy
    }

    /// A builder for a line of this track: it starts with the track's
    /// extension ratio.
    pub fn line_builder(&self) -> (r: LineBuilder)
        ensures
            r.line() == (Line {
                extension_ratio: self.settings().line_extension_ratio,
                ..Line::default_spec()
            }),
            r.located() == 0,
    {
        Line::builder().extension_ratio(self.meta.line_extension_ratio)
    }

    /// All lines of the track, in the order in which they were added.
    pub fn all_lines(&self) -> (r: &Vec<Line>)
        ensures
            r@ == self.lines(),
    {
        self.grid.all_lines()
    }

    /// Forgets every frame but frame 0.
    fn forget_frames(&mut self)
        requires
            old(self).grid.wf(),
            old(self).frames@.len() >= 1,
            all_wf(old(self).cached(0)),
        ensures
            final(self).wf(),
            final(self).grid == old(self).grid,
            final(self).settings() == old(self).settings(),
            final(self).cached_frames() == 1,
            final(self).start() == old(self).start(),
    {
        self.frames.truncate(1);
    }

    /// Adds a line to the track and forgets every frame but frame 0.
    pub fn add_line(&mut self, line: Line)
        requires
            old(self).wf(),
        ensures
            final(self).wf(),
            final(self).settings() == old(self).settings(),
            final(self).cell_size() == old(self).cell_size(),
            final(self).lines() == old(self).lines().push(line),
            final(self).cached_frames() == 1,
            final(self).start() == old(self).start(),
    {
        proof {
            assert(all_wf(self.cached(0)));
        }
        self.grid.add_line(line);
        self.forget_frames();
    }

    /// Removes from the track the line that was added last among those equal
    /// to `line`, and forgets every frame but frame 0. Returns whether there
    /// was such a line; with none the lines stay as they are.
    pub fn remove_line(&mut self, line: &Line) -> (found: bool)
        requires
            old(self).wf(),
        ensures
            final(self).wf(),
            final(self).settings() == old(self).settings(),
            final(self).cell_size() == old(self).cell_size(),
            final(self).lines() == without_last_match(old(self).lines(), *line),
            found == has_match(old(self).lines(), *line),
            final(self).cached_frames() == 1,
            final(self).start() == old(self).start(),
    {
        proof {
            assert(all_wf(self.cached(0)));
        }
        let found = self.grid.remove_line(line);
        self.forget_frames();
        found
    }

    /// The lines within one cell of the cell of `point`; see
    /// `Grid::lines_near`.
    pub fn lines_near(&self, point: Vector2D) -> (r: Vec<Line>)
        requires
            self.wf(),
        ensures
            r@ == near_spec(self.lines(), self.cell_size(), point, 1),
    {
        self.grid.lines_near(point, 1)
    }

    /// The lines in the box with corners `p1` and `p2`; see
    /// `Grid::lines_near_box`.
    pub fn lines_near_box(&self, p1: Vector2D, p2: Vector2D) -> (r: Vec<Line>)
        requires
            self.wf(),
        ensures
            r@ == box_spec(self.lines(), self.cell_size(), p1, p2),
    {
        self.grid.lines_near_box(p1, p2)
    }

    /// The entities of frame `frame`, counted from 0. Frames that the track
    /// does not remember yet are worked out one after the other from the
    /// last one it remembers, and remembered from then on.
    pub fn entity_positions_at(&mut self, frame: usize) -> (r: Vec<Entity>)
        requires
            old(self).wf(),
        ensures
            final(self).wf(),
            final(self).settings() == old(self).settings(),
            final(self).cell_size() == old(self).cell_size(),
            final(self).lines() == old(self).lines(),
            final(self).start() == old(self).start(),
            final(self).cached_frames() == if frame < old(self).cached_frames() {
                old(self).cached_frames()
            } else {
                (frame + 1) as nat
            },
            views(r@) == frame_spec(old(self).start(), old(self).world(), frame as nat),
            all_wf(views(r@)),
    {
        while self.frames.len() <= frame
            invariant
                self.wf(),
                self.meta == old(self).meta,
                self.grid == old(self).grid,
                self.cached(0) == old(self).cached(0),
                self.frames@.len() >= old(self).frames@.len(),
                self.frames@.len() <= frame + 1 || self.frames@.len() == old(self).frames@.len(),
            decreases frame + 1 - self.frames.len(),
        {
            let last = self.frames.len() - 1;
            let ghost known = self.frames@;
            let ghost earlier = *self;
            proof {
                assert(all_wf(self.cached(last as int)));
                assert(self.cached(last as int) == frame_spec(
                    self.cached(0),
                    self.world(),
                    last as nat,
                ));
            }
            let next = frame_after(&self.frames[last], &*self);
            self.frames.push(next);
            proof {
                assert forall|i: int| 0 <= i < self.frames@.len() implies #[trigger] self.cached(i)
                    == frame_spec(self.cached(0), self.world(), i as nat) && all_wf(
                    self.cached(i),
                ) by {
                    if i < known.len() {
                        assert(self.frames@[i] == known[i]);
                        assert(self.cached(i) == earlier.cached(i));
                        assert(all_wf(earlier.cached(i)));
                    } else {
                        assert(self.cached(i) == views(next@));
                        assert(earlier.cached(last as int) == self.cached(last as int));
                    }
                }
            }
        }
        proof {
            assert(self.cached(frame as int) == frame_spec(
                self.cached(0),
                self.world(),
                frame as nat,
            ));
            assert(all_wf(self.cached(frame as int)));
        }
        duplicate_all(&self.frames[frame])
    }

    /// Adds an entity at the end of frame 0 and forgets every other frame.
    pub fn create_entity(&mut self, entity: Entity)
        requires
            old(self).wf(),
            entity.wf(),
        ensures
            final(self).wf(),
            final(self).settings() == old(self).settings(),
            final(self).cell_size() == old(self).cell_size(),
            final(self).lines() == old(self).lines(),
            final(self).cached_frames() == 1,
            final(self).start() == old(self).start().push(entity@),
    {
        proof {
            assert(all_wf(self.cached(0)));
        }
        self.frames.truncate(1);
        let mut first = match self.frames.pop() {
            Some(first) => first,
            None => Vec::new(),
        };
        let ghost before = views(first@);
        first.push(entity);
        proof {
            assert(views(first@) =~= before.push(entity@));
        }
        self.frames.push(first);
        proof {
            assert forall|j: int| 0 <= j < self.cached(0).len() implies (#[trigger] self.cached(
                0,
            )[j]).wf() by {
                if j < before.len() {
                    assert(self.cached(0)[j] == before[j]);
                }
            }
        }
    }

    /// Removes from frame 0 the first entity that equals `entity`. With no
    /// such entity frame 0 stays as it is and `None` comes back. Either way
    /// every frame but frame 0 is forgotten.
    pub fn remove_entity(&mut self, entity: Entity) -> (r: Option<()>)
        requires
            old(self).wf(),
        ensures
            final(self).wf(),
            final(self).settings() == old(self).settings(),
            final(self).cell_size() == old(self).cell_size(),
            final(self).lines() == old(self).lines(),
            r is Some <==> old(self).start().contains(entity@),
            final(self).cached_frames() == 1,
            r is Some ==> exists|index: int|
                is_first_equal(old(self).start(), entity@, index) && final(self).start() == old(
                    self,
                ).start().remove(index),
            r is None ==> final(self).start() == old(self).start(),
    {
        let mut index: usize = 0;
        let mut found = false;
        while index < self.frames[0].len() && !found
            invariant
                self == old(self),
                self.wf(),
                index <= self.frames@[0]@.len(),
                forall|j: int| 0 <= j < index ==> self.cached(0)[j] != entity@,
                found ==> index < self.frames@[0]@.len() && self.cached(0)[index as int] == entity@,
            decreases self.frames@[0]@.len() - index + if found { 0int } else { 1int },
        {
            if self.frames[0][index].equals(&entity) {
                found = true;
            } else {
                index += 1;
            }
        }
        if !found {
            proof {
                if old(self).start().contains(entity@) {
                    let j = choose|j: int|
                        0 <= j < old(self).start().len() && old(self).start()[j] == entity@;
                    assert(self.cached(0)[j] != entity@);
                }
                assert(all_wf(self.cached(0)));
            }
            self.forget_frames();
            return None;
        }
        proof {
            assert(all_wf(self.cached(0)));
            assert(is_first_equal(old(self).start(), entity@, index as int));
            assert(old(self).start()[index as int] == entity@);
        }
        self.frames.truncate(1);
        let mut first = match self.frames.pop() {
            Some(first) => first,
            None => Vec::new(),
        };
        let ghost before = views(first@);
        first.remove(index);
        proof {
            assert(views(first@) =~= before.remove(index as int));
        }
        self.frames.push(first);
        proof {
            assert forall|j: int| 0 <= j < self.cached(0).len() implies (#[trigger] self.cached(
                0,
            )[j]).wf() by {
                if j < index {
                    assert(self.cached(0)[j] == before[j]);
                } else {
                    assert(self.cached(0)[j] == before[j + 1]);
                }
            }
        }
        Some(())
    }

    /// The nearer of the best end so far and `candidate`.
    fn nearer(
        best: Option<(Vector2D, u64)>,
        candidate: Vector2D,
        target: Vector2D,
        limit: u64,
    ) -> (r: Option<(Vector2D, u64)>)
        ensures
            r == nearer_spec(best, candidate, target, limit),
    {
        let distance = candidate.distance_squared(target);
        if !total_lt(distance, limit) {
            return best;
        }
        match best {
            None => Some((candidate, distance)),
            Some((_, least)) => {
                if total_lt(distance, least) {
                    Some((candidate, distance))
                } else {
                    best
                }
            },
        }
    }

    /// Snaps a point to the nearest end of a line near it. Both ends of
    /// every line within one cell of the point are looked at, in the order
    /// of `lines_near`; an end counts if its squared distance is below
    /// `max_dist` squared; of the ends that count the nearest is returned,
    /// and of several equally near the first. Without any, the point itself
    /// comes back. Distances are compared in the total order of numbers.
    pub fn snap_point(&self, max_dist: u64, to_snap: Vector2D) -> (r: Vector2D)
        requires
            self.wf(),
        ensures
            r == snap_spec(
                near_spec(self.lines(), self.cell_size(), to_snap, 1),
                max_dist,
                to_snap,
            ),
    {
        let limit = soft_product(max_dist, max_dist);
        let near = self.lines_near(to_snap);
        let mut best: Option<(Vector2D, u64)> = None;
        let mut i: usize = 0;
        while i < near.len()
            invariant
                i <= near.len(),
                best == nearest_end_spec(near@, i as nat, to_snap, limit),
            decreases near.len() - i,
        {
            best = Self::nearer(best, near[i].ends.0.location, to_snap, limit);
            best = Self::nearer(best, near[i].ends.1.location, to_snap, limit);
            i += 1;
        }
        match best {
            Some((end, _)) => end,
            None => to_snap,
        }
    }

    /// How deep `point` has sunk below `line`, or zero where the line does
    /// not hold it: when the point does not move into the line, when it is
    /// beside the line and its extensions, when it is above the line, and
    /// when it is below the track's gravity well.
    pub fn distance_below_line(&self, line: &Line, point: &EntityPoint) -> (r: u64)
        ensures
            r == well_depth_spec(*line, *point, self.settings().gravity_well_height),
    {
        well_depth(line, point, self.meta.gravity_well_height)
    }
}

} // verus!
