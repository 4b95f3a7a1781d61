//! Grid cells and the cells that a line passes through.
//!
//! The plane is cut into square cells of one size. The cell of a coordinate
//! `v` is `floor(v / size)`. A line is laid over the grid column by column:
//! in each column between its two ends it takes the rows between the height
//! at which it enters the column and the height at which it leaves.

use vstd::prelude::*;
use crate::ieee::{
    difference, difference_spec, floor, floor_spec, lt, lt_spec, product_spec, quotient_spec,
    soft_product, soft_quotient, soft_sum, sum_spec, whole, whole_spec,
};
use crate::line::Line;
use crate::vector::Vector2D;

verus! {

/// The index of the cell that holds the coordinate `v` on a grid of cells of
/// size `size`.
pub open spec fn cell_index_spec(v: u64, size: u64) -> i32 {
    floor_spec(quotient_spec(v, size))
}

/// The index of the cell that holds the coordinate `v`.
pub fn cell_index(v: u64, size: u64) -> (r: i32)
    ensures
        r == cell_index_spec(v, size),
{
    floor(soft_quotient(v, size))
}

/// The key under which the cell `(x, y)` is stored.
pub open spec fn cell_key(x: int, y: int) -> int {
    (x + 0x8000_0000) * 0x1_0000_0000 + (y + 0x8000_0000)
}

/// The key of a cell; different cells have different keys.
pub fn key_of(x: i32, y: i32) -> (r: u64)
    ensures
        r == cell_key(x as int, y as int),
{
    let column: u64 = (x as i64 + 0x8000_0000) as u64;
    let row: u64 = (y as i64 + 0x8000_0000) as u64;
    column * 0x1_0000_0000 + row
}

/// Two cells with the same key are the same cell.
pub proof fn lemma_key_injective(x1: i32, y1: i32, x2: i32, y2: i32)
    requires
        cell_key(x1 as int, y1 as int) == cell_key(x2 as int, y2 as int),
    ensures
        x1 == x2,
        y1 == y2,
{
}

impl Line {
    /// Whether the second end lies to the left of the first.
    pub open spec fn runs_leftward(self) -> bool {
        lt_spec(self.ends.1.location.0, self.ends.0.location.0)
    }

    /// The end with the smaller x; the first end when neither is smaller.
    pub open spec fn left_end(self) -> Vector2D {
        if self.runs_leftward() {
            self.ends.1.location
        } else {
            self.ends.0.location
        }
    }

    /// The end that is not the left end.
    pub open spec fn right_end(self) -> Vector2D {
        if self.runs_leftward() {
            self.ends.0.location
        } else {
            self.ends.1.location
        }
    }

    /// The leftmost column that the line reaches.
    pub open spec fn column_low(self, size: u64) -> int {
        let a = cell_index_spec(self.left_end().0, size);
        let b = cell_index_spec(self.right_end().0, size);
        if a <= b {
            a as int
        } else {
            b as int
        }
    }

    /// The rightmost column that the line reaches.
    pub open spec fn column_high(self, size: u64) -> int {
        let a = cell_index_spec(self.left_end().0, size);
        let b = cell_index_spec(self.right_end().0, size);
        if a <= b {
            b as int
        } else {
            a as int
        }
    }

    /// The height of the line above the coordinate `x`, by linear
    /// interpolation from the left end:
    /// `left.y + (x - left.x) * (right.y - left.y) / (right.x - left.x)`.
    pub open spec fn height_at(self, x: u64) -> u64 {
        let left = self.left_end();
        let right = self.right_end();
        sum_spec(
            left.1,
            quotient_spec(
                product_spec(difference_spec(x, left.0), difference_spec(right.1, left.1)),
                difference_spec(right.0, left.0),
            ),
        )
    }

    /// The height at which the line enters column `cx`: the left end's in the
    /// leftmost column, else the height above the column's left edge.
    pub open spec fn entry_height(self, size: u64, cx: int) -> u64 {
        if cx == self.column_low(size) {
            self.left_end().1
        } else {
            self.height_at(product_spec(whole_spec(cx as i32), size))
        }
    }

    /// The height at which the line leaves column `cx`: the right end's in
    /// the rightmost column, else the height above the column's right edge.
    pub open spec fn exit_height(self, size: u64, cx: int) -> u64 {
        if cx == self.column_high(size) {
            self.right_end().1
        } else {
            self.height_at(product_spec(whole_spec((cx + 1) as i32), size))
        }
    }

    /// The lowest row that the line takes in column `cx`.
    pub open spec fn row_low(self, size: u64, cx: int) -> int {
        let a = cell_index_spec(self.entry_height(size, cx), size);
        let b = cell_index_spec(self.exit_height(size, cx), size);
        if a <= b {
            a as int
        } else {
            b as int
        }
    }

    /// The highest row that the line takes in column `cx`.
    pub open spec fn row_high(self, size: u64, cx: int) -> int {
        let a = cell_index_spec(self.entry_height(size, cx), size);
        let b = cell_index_spec(self.exit_height(size, cx), size);
        if a <= b {
            b as int
        } else {
            a as int
        }
    }

    /// Whether the line is stored in the cell `(cx, cy)`: the column lies
    /// between the columns of its ends, and the row between the rows at which
    /// it enters and leaves that column. Both cells of its ends are among
    /// them.
    pub open spec fn covers(self, size: u64, cx: int, cy: int) -> bool {
        &&& self.column_low(size) <= cx <= self.column_high(size)
        &&& self.row_low(size, cx) <= cy <= self.row_high(size, cx)
    }

    /// The leftmost and the rightmost column that the line reaches.
    pub fn column_range(&self, size: u64) -> (r: (i32, i32))
        ensures
            r.0 == self.column_low(size),
            r.1 == self.column_high(size),
            r.0 <= r.1,
    {
        let leftward = lt(self.ends.1.location.0, self.ends.0.location.0);
        let left = if leftward { self.ends.1.location } else { self.ends.0.location };
        let right = if leftward { self.ends.0.location } else { self.ends.1.location };
        let a = cell_index(left.0, size);
        let b = cell_index(right.0, size);
        if a <= b {
            (a, b)
        } else {
            (b, a)
        }
    }

    /// The height of the line above the coordinate `x`.
    fn height_above(&self, x: u64) -> (r: u64)
        ensures
            r == self.height_at(x),
    {
        let leftward = lt(self.ends.1.location.0, self.ends.0.location.0);
        let left = if leftward { self.ends.1.location } else { self.ends.0.location };
        let right = if leftward { self.ends.0.location } else { self.ends.1.location };
        let run = difference(right.0, left.0);
        let rise = difference(right.1, left.1);
        soft_sum(left.1, soft_quotient(soft_product(difference(x, left.0), rise), run))
    }

    /// The lowest and the highest row that the line takes in column `cx`,
    /// given the range of its columns.
    pub fn row_range(&self, size: u64, columns: (i32, i32), cx: i32) -> (r: (i32, i32))
        requires
            columns.0 == self.column_low(size),
            columns.1 == self.column_high(size),
            columns.0 <= cx <= columns.1,
        ensures
            r.0 == self.row_low(size, cx as int),
            r.1 == self.row_high(size, cx as int),
            r.0 <= r.1,
    {
        let leftward = lt(self.ends.1.location.0, self.ends.0.location.0);
        let left = if leftward { self.ends.1.location } else { self.ends.0.location };
        let right = if leftward { self.ends.0.location } else { self.ends.1.location };
        let entry = if cx == columns.0 {
            left.1
        } else {
            self.height_above(soft_product(whole(cx), size))
        };
        let exit = if cx == columns.1 {
            right.1
        } else {
            self.height_above(soft_product(whole(cx + 1), size))
        };
        let a = cell_index(entry, size);
        let b = cell_index(exit, size);
        if a <= b {
            (a, b)
        } else {
            (b, a)
        }
    }

    /// Whether the line is stored in the cell `(cx, cy)`.
    pub fn is_in_cell(&self, size: u64, cx: i32, cy: i32) -> (r: bool)
        ensures
            r == self.covers(size, cx as int, cy as int),
    {
        let columns = self.column_range(size);
        if cx < columns.0 || columns.1 < cx {
            false
        } else {
            let rows = self.row_range(size, columns, cx);
            rows.0 <= cy && cy <= rows.1
        }
    }

    /// Two lines that are equal lie in the same cells.
    pub proof fn lemma_same_covers(self, other: Line, size: u64, cx: int, cy: int)
        requires
            self.same(other),
        ensures
            self.covers(size, cx, cy) == other.covers(size, cx, cy),
    {
    }
}

} // verus!
