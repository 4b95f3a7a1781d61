//! Track lines and the builder that makes them.

use vstd::prelude::*;
use core::cmp::Ordering;
use vstd::std_specs::cmp::{PartialEqSpecImpl, PartialOrdSpecImpl};
use crate::ieee::{clamp, clamp_spec, product_spec, root, soft_product, sqrt_spec, TEN, ZERO};
use crate::vector::Vector2D;

verus! {

/// `0.25`, the share of its length by which an extended end reaches out
/// unless the track says otherwise.
pub const DEFAULT_EXTENSION_RATIO: u64 = 0x3fd0_0000_0000_0000;

/// What a line does to a point that runs into it.
#[derive(Clone, Copy, Debug, PartialEq, Eq, Hash, Structural)]
pub enum LineType {
    /// Holds the point up.
    Normal,
    /// Holds the point up and pushes it along the line.
    Accelerate { amount: u64 },
    /// Is drawn and indexed, and never touches a point.
    Scenery,
}

impl Default for LineType {
    fn default() -> (r: LineType)
        ensures
            r == LineType::Normal,
    {
        LineType::Normal
    }
}

/// One end of a line.
#[derive(Clone, Copy, Debug, PartialEq, Eq, Hash, Structural)]
pub struct LinePoint {
    pub location: Vector2D,
    /// Whether the line's hitbox reaches out beyond this end.
    pub extended: bool,
}

impl Default for LinePoint {
    fn default() -> (r: LinePoint)
        ensures
            r == (LinePoint { location: Vector2D(ZERO, ZERO), extended: false }),
    {
        LinePoint { location: Vector2D(ZERO, ZERO), extended: false }
    }
}

/// A line segment of the track.
#[derive(Clone, Copy, Debug, Eq)]
pub struct Line {
    pub id: i64,
    pub ends: (LinePoint, LinePoint),
    pub line_type: LineType,
    pub flipped: bool,
    /// The track's extension ratio. It is the same for every line of a track
    /// and takes no part in equality.
    pub extension_ratio: u64,
}

impl Line {
    /// Equality of lines: identifier, both ends, type and flip agree. The
    /// extension ratio is left out.
    pub open spec fn same(self, other: Line) -> bool {
        &&& self.id == other.id
        &&& self.ends == other.ends
        &&& self.line_type == other.line_type
        &&& self.flipped == other.flipped
    }
}

impl PartialEq for Line {
    fn eq(&self, other: &Line) -> (r: bool) {
        self.id == other.id && self.ends.0 == other.ends.0 && self.ends.1 == other.ends.1
            && self.line_type == other.line_type && self.flipped == other.flipped
    }
}

impl PartialEqSpecImpl for Line {
    open spec fn obeys_eq_spec() -> bool {
        true
    }

    open spec fn eq_spec(&self, other: &Line) -> bool {
        self.same(*other)
    }
}

impl PartialOrd for Line {
    /// Orders lines by their identifier alone: two lines with one identifier
    /// compare as equal here even where `==` tells them apart.
    fn partial_cmp(&self, other: &Line) -> (r: Option<Ordering>) {
        if self.id < other.id {
            Some(Ordering::Less)
        } else if self.id == other.id {
            Some(Ordering::Equal)
        } else {
            Some(Ordering::Greater)
        }
    }
}

impl PartialOrdSpecImpl for Line {
    open spec fn obeys_partial_cmp_spec() -> bool {
        true
    }

    open spec fn partial_cmp_spec(&self, other: &Line) -> Option<Ordering> {
        if self.id < other.id {
            Some(Ordering::Less)
        } else if self.id == other.id {
            Some(Ordering::Equal)
        } else {
            Some(Ordering::Greater)
        }
    }
}

impl Default for Line {
    fn default() -> (r: Line)
        ensures
            r == Line::default_spec(),
    {
        Line {
            id: 0,
            ends: (
                LinePoint { location: Vector2D(ZERO, ZERO), extended: false },
                LinePoint { location: Vector2D(ZERO, ZERO), extended: false },
            ),
            line_type: LineType::Normal,
            flipped: false,
            extension_ratio: DEFAULT_EXTENSION_RATIO,
        }
    }
}

impl Line {
    /// The line a fresh builder starts from: identifier 0, both ends at the
    /// origin and not extended, `Normal`, not flipped, ratio 0.25.
    pub open spec fn default_spec() -> Line {
        Line {
            id: 0,
            ends: (
                LinePoint { location: Vector2D(ZERO, ZERO), extended: false },
                LinePoint { location: Vector2D(ZERO, ZERO), extended: false },
            ),
            line_type: LineType::Normal,
            flipped: false,
            extension_ratio: DEFAULT_EXTENSION_RATIO,
        }
    }

    /// The displacement from the first end to the second.
    pub open spec fn as_vector2d_spec(self) -> Vector2D {
        self.ends.1.location.minus_spec(self.ends.0.location)
    }

    /// The squared distance between the ends.
    pub open spec fn length_squared_spec(self) -> u64 {
        self.ends.0.location.distance_squared_spec(self.ends.1.location)
    }

    /// The unit normal on the side to which the line pushes: the direction
    /// turned left, or right for a flipped line.
    pub open spec fn perpendicular_spec(self) -> Vector2D {
        if self.flipped {
            self.as_vector2d_spec().rotate90_right_spec().normalize_spec()
        } else {
            self.as_vector2d_spec().rotate90_left_spec().normalize_spec()
        }
    }

    /// The reach of an extended end: length times ratio, held to 0..10.
    pub open spec fn extension_reach_spec(self) -> u64 {
        clamp_spec(
            product_spec(sqrt_spec(self.length_squared_spec()), self.extension_ratio),
            ZERO,
            TEN,
        )
    }

    /// The hitbox extension at each end: the reach where the end is
    /// extended, zero where it is not.
    pub open spec fn hitbox_extensions_spec(self) -> (u64, u64) {
        (
            if self.ends.0.extended { self.extension_reach_spec() } else { ZERO },
            if self.ends.1.extended { self.extension_reach_spec() } else { ZERO },
        )
    }

    /// A builder that starts from the default line with no end located.
    pub fn builder() -> (r: LineBuilder)
        ensures
            r.line() == Line::default_spec(),
            r.located() == 0,
    {
        LineBuilder { ends_located: 0, line: Line::default() }
    }

    /// The displacement from the first end to the second.
    pub fn as_vector2d(&self) -> (r: Vector2D)
        ensures
            r == self.as_vector2d_spec(),
    {
        self.ends.1.location.minus(self.ends.0.location)
    }

    /// The squared distance between the ends.
    pub fn length_squared(&self) -> (r: u64)
        ensures
            r == self.length_squared_spec(),
    {
        self.ends.0.location.distance_squared(self.ends.1.location)
    }

    /// The unit normal that faces "up", the way the line pushes.
    pub fn perpendicular(&self) -> (r: Vector2D)
        ensures
            r == self.perpendicular_spec(),
    {
        if self.flipped {
            self.as_vector2d().rotate90_right().normalize()
        } else {
            self.as_vector2d().rotate90_left().normalize()
        }
    }

    /// The hitbox extension at the first and at the second end.
    pub fn hitbox_extensions(&self) -> (r: (u64, u64))
        ensures
            r == self.hitbox_extensions_spec(),
    {
        let length = root(self.length_squared());
        let reach = clamp(soft_product(length, self.extension_ratio), ZERO, TEN);
        let first = if self.ends.0.extended { reach } else { ZERO };
        let second = if self.ends.1.extended { reach } else { ZERO };
        (first, second)
    }
}

/// Builds a line step by step. The first located point is the first end, the
/// next one the second end; an end can be marked extended only once it has
/// been located.
pub struct LineBuilder {
    ends_located: u8,
    line: Line,
}

impl LineBuilder {
    /// The line as built so far.
    pub closed spec fn line(self) -> Line {
        self.line
    }

    /// How many ends have been located: 0, 1 or 2.
    pub closed spec fn located(self) -> nat {
        if self.ends_located == 0 {
            0
        } else if self.ends_located == 1 {
            1
        } else {
            2
        }
    }

    /// The line with an end moved to `point`: the first end while none is
    /// located, the second end from then on.
    pub open spec fn line_with_point(line: Line, located: nat, point: Vector2D) -> Line {
        if located == 0 {
            Line {
                ends: (LinePoint { location: point, extended: line.ends.0.extended }, line.ends.1),
                ..line
            }
        } else {
            Line {
                ends: (line.ends.0, LinePoint { location: point, extended: line.ends.1.extended }),
                ..line
            }
        }
    }

    /// The line with the flag of its latest located end set to `extended`.
    pub open spec fn line_with_extended(line: Line, located: nat, extended: bool) -> Line {
        if located == 1 {
            Line {
                ends: (LinePoint { location: line.ends.0.location, extended }, line.ends.1),
                ..line
            }
        } else {
            Line {
                ends: (line.ends.0, LinePoint { location: line.ends.1.location, extended }),
                ..line
            }
        }
    }

    /// Sets the identifier.
    pub fn id(self, id: i64) -> (r: LineBuilder)
        ensures
            r.line() == (Line { id, ..self.line() }),
            r.located() == self.located(),
    {
        let mut next = self;
        next.line.id = id;
        next
    }

    /// Sets the extension ratio.
    pub fn extension_ratio(self, extension_ratio: u64) -> (r: LineBuilder)
        ensures
            r.line() == (Line { extension_ratio, ..self.line() }),
            r.located() == self.located(),
    {
        let mut next = self;
        next.line.extension_ratio = extension_ratio;
        next
    }

    /// Sets the type.
    pub fn line_type(self, line_type: LineType) -> (r: LineBuilder)
        ensures
            r.line() == (Line { line_type, ..self.line() }),
            r.located() == self.located(),
    {
        let mut next = self;
        next.line.line_type = line_type;
        next
    }

    /// Sets the flip.
    pub fn flipped(self, flipped: bool) -> (r: LineBuilder)
        ensures
            r.line() == (Line { flipped, ..self.line() }),
            r.located() == self.located(),
    {
        let mut next = self;
        next.line.flipped = flipped;
        next
    }

    /// Locates the next end at `(p1, p2)`: the first end on the first call,
    /// the second end on every later one.
    pub fn point(self, p1: u64, p2: u64) -> (r: LineBuilder)
        ensures
            r.line() == LineBuilder::line_with_point(self.line(), self.located(), Vector2D(p1, p2)),
            r.located() == if self.located() == 0 { 1nat } else { 2nat },
    {
        self.point_vec(Vector2D(p1, p2))
    }

    /// Locates the next end at `point`: the first end on the first call, the
    /// second end on every later one.
    pub fn point_vec(self, point: Vector2D) -> (r: LineBuilder)
        ensures
            r.line() == LineBuilder::line_with_point(self.line(), self.located(), point),
            r.located() == if self.located() == 0 { 1nat } else { 2nat },
    {
        let mut next = self;
        if next.ends_located == 0 {
            next.line.ends.0.location = point;
            next.ends_located = 1;
        } else {
            next.line.ends.1.location = point;
            next.ends_located = 2;
        }
        next
    }

    /// Marks the latest located end as extended or not. An end has to be
    /// located first.
    pub fn extended(self, extended: bool) -> (r: LineBuilder)
        requires
            self.located() >= 1,
        ensures
            r.line() == LineBuilder::line_with_extended(self.line(), self.located(), extended),
            r.located() == self.located(),
    {
        let mut next = self;
        if next.ends_located == 1 {
            next.line.ends.0.extended = extended;
        } else {
            next.line.ends.1.extended = extended;
        }
        next
    }

    /// Whether an end has been located, so that `extended` may be called.
    pub fn can_extend(&self) -> (r: bool)
        ensures
            r == (self.located() >= 1),
    {
        self.ends_located >= 1
    }

    /// The finished line.
    pub fn build(self) -> (r: Line)
        ensures
            r == self.line(),
    {
        self.line
    }
}

} // verus!
