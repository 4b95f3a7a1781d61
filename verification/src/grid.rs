//! The spatial index of track lines.
//!
//! The grid keeps every line in the order in which it was added, and for
//! every cell the lines that lie in it, in that same order. A query walks a
//! block of cells column by column, each column from its lowest row up, and
//! reports each line where it first meets it.

use std::collections::HashMap;
use vstd::prelude::*;
use crate::cell::{cell_index, cell_index_spec, cell_key, key_of, lemma_key_injective};
use crate::line::Line;
use crate::vector::Vector2D;

verus! {

broadcast use vstd::std_specs::hash::group_hash_axioms;

/// The lines of `lines` that lie in the cell `(cx, cy)`, in their order.
pub open spec fn cell_lines(lines: Seq<Line>, size: u64, cx: int, cy: int) -> Seq<Line>
    decreases lines.len(),
{
    if lines.len() == 0 {
        Seq::empty()
    } else {
        let before = cell_lines(lines.drop_last(), size, cx, cy);
        if lines.last().covers(size, cx, cy) {
            before.push(lines.last())
        } else {
            before
        }
    }
}

/// Whether `found` holds a line equal to `line`.
pub open spec fn has_match(found: Seq<Line>, line: Line) -> bool {
    exists|i: int| 0 <= i < found.len() && (#[trigger] found[i]).same(line)
}

/// `found`, followed by those lines of `extra` that equal no line before
/// them, in their order.
pub open spec fn merge_unseen(found: Seq<Line>, extra: Seq<Line>) -> Seq<Line>
    decreases extra.len(),
{
    if extra.len() == 0 {
        found
    } else {
        let before = merge_unseen(found, extra.drop_last());
        if has_match(before, extra.last()) {
            before
        } else {
            before.push(extra.last())
        }
    }
}

/// `found`, extended by the unseen lines of the cells of column `cx` from
/// row `y_low` up to row `y_high`.
pub open spec fn scan_column(
    found: Seq<Line>,
    lines: Seq<Line>,
    size: u64,
    cx: int,
    y_low: int,
    y_high: int,
) -> Seq<Line>
    decreases y_high - y_low + 1,
{
    if y_high < y_low {
        found
    } else {
        merge_unseen(
            scan_column(found, lines, size, cx, y_low, y_high - 1),
            cell_lines(lines, size, cx, y_high),
        )
    }
}

/// The lines met when the block of cells from column `x_low` to `x_high` and
/// from row `y_low` to `y_high` is walked column by column, each column from
/// its lowest row up, each cell in the order in which its lines were added;
/// a line is listed where it is first met.
pub open spec fn scan_block(
    lines: Seq<Line>,
    size: u64,
    x_low: int,
    x_high: int,
    y_low: int,
    y_high: int,
) -> Seq<Line>
    decreases x_high - x_low + 1,
{
    if x_high < x_low {
        Seq::empty()
    } else {
        scan_column(
            scan_block(lines, size, x_low, x_high - 1, y_low, y_high),
            lines,
            size,
            x_high,
            y_low,
            y_high,
        )
    }
}

/// The lines near `point`: the block of cells within `radius` cells of the
/// point's own cell.
pub open spec fn near_spec(lines: Seq<Line>, size: u64, point: Vector2D, radius: u32) -> Seq<Line> {
    let cx = cell_index_spec(point.0, size) as int;
    let cy = cell_index_spec(point.1, size) as int;
    scan_block(lines, size, cx - radius, cx + radius, cy - radius, cy + radius)
}

/// The smaller of two integers.
pub open spec fn lesser(a: int, b: int) -> int {
    if a <= b {
        a
    } else {
        b
    }
}

/// The larger of two integers.
pub open spec fn greater(a: int, b: int) -> int {
    if a <= b {
        b
    } else {
        a
    }
}

/// The lines in the box with corners `p1` and `p2`: the block of cells
/// between the cells of the two corners, whichever corner is which.
pub open spec fn box_spec(lines: Seq<Line>, size: u64, p1: Vector2D, p2: Vector2D) -> Seq<Line> {
    let x1 = cell_index_spec(p1.0, size) as int;
    let y1 = cell_index_spec(p1.1, size) as int;
    let x2 = cell_index_spec(p2.0, size) as int;
    let y2 = cell_index_spec(p2.1, size) as int;
    scan_block(lines, size, lesser(x1, x2), greater(x1, x2), lesser(y1, y2), greater(y1, y2))
}

/// The index of the last line of `lines` that equals `line`, or -1.
pub open spec fn last_match(lines: Seq<Line>, line: Line) -> int
    decreases lines.len(),
{
    if lines.len() == 0 {
        -1
    } else if lines.last().same(line) {
        lines.len() - 1
    } else {
        last_match(lines.drop_last(), line)
    }
}

/// `lines` without the last of its lines that equals `line`; `lines` itself
/// when none does.
pub open spec fn without_last_match(lines: Seq<Line>, line: Line) -> Seq<Line> {
    let i = last_match(lines, line);
    if i < 0 {
        lines
    } else {
        lines.remove(i)
    }
}

/// The lines stored under the cell `(x, y)`.
pub open spec fn bucket(cells: Map<u64, Vec<Line>>, x: int, y: int) -> Seq<Line> {
    if cells.contains_key(cell_key(x, y) as u64) {
        cells[cell_key(x, y) as u64]@
    } else {
        Seq::empty()
    }
}

/// Adding a line at the end adds it at the end of each cell it lies in and
/// leaves the other cells as they are.
pub proof fn lemma_cell_lines_push(lines: Seq<Line>, line: Line, size: u64, cx: int, cy: int)
    ensures
        cell_lines(lines.push(line), size, cx, cy) == if line.covers(size, cx, cy) {
            cell_lines(lines, size, cx, cy).push(line)
        } else {
            cell_lines(lines, size, cx, cy)
        },
{
    assert(lines.push(line).drop_last() =~= lines);
}

/// A cell whose indices do not fit an `i32` holds no line.
pub proof fn lemma_cell_lines_out_of_range(lines: Seq<Line>, size: u64, cx: int, cy: int)
    requires
        cx < i32::MIN || cx > i32::MAX || cy < i32::MIN || cy > i32::MAX,
    ensures
        cell_lines(lines, size, cx, cy) == Seq::<Line>::empty(),
    decreases lines.len(),
{
    if lines.len() > 0 {
        lemma_cell_lines_out_of_range(lines.drop_last(), size, cx, cy);
    }
}

/// What `last_match` finds: -1 exactly when no line equals `line`, else the
/// index of an equal line after which none is equal.
pub proof fn lemma_last_match(lines: Seq<Line>, line: Line)
    ensures
        -1 <= last_match(lines, line) < lines.len(),
        last_match(lines, line) >= 0 <==> has_match(lines, line),
        last_match(lines, line) >= 0 ==> lines[last_match(lines, line)].same(line),
        forall|j: int| last_match(lines, line) < j < lines.len() ==> !(#[trigger] lines[j]).same(line),
    decreases lines.len(),
{
    if lines.len() > 0 {
        let front = lines.drop_last();
        lemma_last_match(front, line);
        if lines.last().same(line) {
            assert(lines[lines.len() - 1].same(line));
        } else {
            if has_match(lines, line) {
                let i = choose|i: int| 0 <= i < lines.len() && (#[trigger] lines[i]).same(line);
                assert(front[i].same(line));
            }
            if has_match(front, line) {
                let i = choose|i: int| 0 <= i < front.len() && (#[trigger] front[i]).same(line);
                assert(lines[i].same(line));
            }
            assert forall|j: int| last_match(lines, line) < j < lines.len() implies !(
            #[trigger] lines[j]).same(line) by {
                if j < front.len() {
                    assert(front[j] == lines[j]);
                }
            }
        }
    }
}

/// Taking out the last line equal to `line` takes it out of each cell it
/// lies in, where it is the last line equal to `line` too, and leaves the
/// other cells as they are.
pub proof fn lemma_cell_lines_remove(lines: Seq<Line>, line: Line, size: u64, cx: int, cy: int)
    requires
        last_match(lines, line) >= 0,
    ensures
        cell_lines(without_last_match(lines, line), size, cx, cy) == if line.covers(size, cx, cy) {
            without_last_match(cell_lines(lines, size, cx, cy), line)
        } else {
            cell_lines(lines, size, cx, cy)
        },
        line.covers(size, cx, cy) ==> last_match(cell_lines(lines, size, cx, cy), line) >= 0,
    decreases lines.len(),
{
    let front = lines.drop_last();
    let last = lines.last();
    let here = cell_lines(lines, size, cx, cy);
    let front_here = cell_lines(front, size, cx, cy);
    if last.same(line) {
        last.lemma_same_covers(line, size, cx, cy);
        assert(lines.remove(lines.len() - 1) =~= front);
        if line.covers(size, cx, cy) {
            assert(here.drop_last() =~= front_here);
            assert(here.remove(here.len() - 1) =~= front_here);
        }
    } else {
        let i = last_match(front, line);
        lemma_last_match(front, line);
        lemma_cell_lines_remove(front, line, size, cx, cy);
        assert(lines.remove(i) =~= front.remove(i).push(last));
        lemma_cell_lines_push(front.remove(i), last, size, cx, cy);
        if line.covers(size, cx, cy) {
            let j = last_match(front_here, line);
            lemma_last_match(front_here, line);
            if last.covers(size, cx, cy) {
                assert(here.drop_last() =~= front_here);
                assert(here.remove(j) =~= front_here.remove(j).push(last));
            }
        }
    }
}

/// The lines of a track, indexed by the cells they lie in.
#[derive(Clone, Debug)]
pub struct Grid {
    cell_size: u64,
    lines: Vec<Line>,
    cells: HashMap<u64, Vec<Line>>,
}

impl Grid {
    /// Every line of the grid, in the order in which it was added.
    pub closed spec fn lines(self) -> Seq<Line> {
        self.lines@
    }

    /// The size of a cell.
    pub closed spec fn cell_size(self) -> u64 {
        self.cell_size
    }

    /// Each cell stores exactly the lines that lie in it, in the order in
    /// which they were added.
    pub closed spec fn wf(self) -> bool {
        forall|x: i32, y: i32| #[trigger]
            bucket(self.cells@, x as int, y as int) == cell_lines(
                self.lines@,
                self.cell_size,
                x as int,
                y as int,
            )
    }

    /// A grid with the given cell size that holds `lines`, added in order.
    pub fn new(lines: Vec<Line>, cell_size: u64) -> (r: Grid)
        ensures
            r.wf(),
            r.lines() == lines@,
            r.cell_size() == cell_size,
    {
        let mut grid = Grid { cell_size, lines: Vec::new(), cells: HashMap::new() };
        assert(grid.wf()) by {
            assert forall|x: i32, y: i32| #[trigger]
                bucket(grid.cells@, x as int, y as int) == cell_lines(
                    grid.lines@,
                    grid.cell_size,
                    x as int,
                    y as int,
                ) by {}
        }
        let mut i: usize = 0;
        while i < lines.len()
            invariant
                i <= lines.len(),
                grid.wf(),
                grid.lines() == lines@.take(i as int),
                grid.cell_size() == cell_size,
            decreases lines.len() - i,
        {
            grid.add_line(lines[i]);
            proof {
                assert(lines@.take(i as int).push(lines@[i as int]) =~= lines@.take(i + 1));
            }
            i += 1;
        }
        proof {
            assert(lines@.take(lines.len() as int) =~= lines@);
        }
        grid
    }

    /// A copy of the grid: the same cell size and the same lines, added in
    /// the same order.
    pub fn duplicate(&self) -> (r: Grid)
        ensures
            r.wf(),
            r.lines() == self.lines(),
            r.cell_size() == self.cell_size(),
    {
        let mut lines: Vec<Line> = Vec::new();
        let mut i: usize = 0;
        while i < self.lines.len()
            invariant
                i <= self.lines.len(),
                lines@ == self.lines@.take(i as int),
            decreases self.lines.len() - i,
        {
            lines.push(self.lines[i]);
            proof {
                assert(self.lines@.take(i as int).push(self.lines@[i as int]) =~= self.lines@.take(
                    i + 1,
                ));
            }
            i += 1;
        }
        proof {
            assert(self.lines@.take(self.lines.len() as int) =~= self.lines@);
        }
        Grid::new(lines, self.cell_size)
    }

    /// Every line of the grid, in the order in which it was added.
    pub fn all_lines(&self) -> (r: &Vec<Line>)
        ensures
            r@ == self.lines(),
    {
        &self.lines
    }

    /// Puts `line` at the end of the cell `(x, y)`.
    fn append_to_cell(&mut self, x: i32, y: i32, line: Line)
        ensures
            final(self).lines == old(self).lines,
            final(self).cell_size == old(self).cell_size,
            bucket(final(self).cells@, x as int, y as int) == bucket(
                old(self).cells@,
                x as int,
                y as int,
            ).push(line),
            forall|u: i32, v: i32|
                (u != x || v != y) ==> #[trigger] bucket(final(self).cells@, u as int, v as int)
                    == bucket(old(self).cells@, u as int, v as int),
    {
        let key = key_of(x, y);
        let mut stored = match self.cells.remove(&key) {
            Some(stored) => stored,
            None => Vec::new(),
        };
        stored.push(line);
        self.cells.insert(key, stored);
        proof {
            assert forall|u: i32, v: i32| (u != x || v != y) implies #[trigger] bucket(
                final(self).cells@,
                u as int,
                v as int,
            ) == bucket(old(self).cells@, u as int, v as int) by {
                if cell_key(u as int, v as int) == cell_key(x as int, y as int) {
                    lemma_key_injective(u, v, x, y);
                }
            }
        }
    }

    /// Adds a line: at the end of the grid's lines and at the end of every
    /// cell that the line lies in.
    pub fn add_line(&mut self, line: Line)
        requires
            old(self).wf(),
        ensures
            final(self).wf(),
            final(self).lines() == old(self).lines().push(line),
            final(self).cell_size() == old(self).cell_size(),
    {
        let size = self.cell_size;
        let ghost before = self.lines@;
        let ghost after = self.lines@.push(line);
        self.lines.push(line);
        let columns = line.column_range(size);
        let mut cx: i64 = columns.0 as i64;
        while cx <= columns.1 as i64
            invariant
                columns.0 == line.column_low(size),
                columns.1 == line.column_high(size),
                columns.0 <= cx <= columns.1 + 1,
                self.cell_size == size,
                self.lines@ == after,
                forall|x: i32, y: i32| #[trigger]
                    bucket(self.cells@, x as int, y as int) == if line.covers(
                        size,
                        x as int,
                        y as int,
                    ) && x < cx {
                        cell_lines(before, size, x as int, y as int).push(line)
                    } else {
                        cell_lines(before, size, x as int, y as int)
                    },
            decreases columns.1 - cx + 1,
        {
            let rows = line.row_range(size, columns, cx as i32);
            let mut cy: i64 = rows.0 as i64;
            while cy <= rows.1 as i64
                invariant
                    columns.0 == line.column_low(size),
                    columns.1 == line.column_high(size),
                    columns.0 <= cx <= columns.1,
                    rows.0 == line.row_low(size, cx as int),
                    rows.1 == line.row_high(size, cx as int),
                    rows.0 <= cy <= rows.1 + 1,
                    self.cell_size == size,
                    self.lines@ == after,
                    forall|x: i32, y: i32| #[trigger]
                        bucket(self.cells@, x as int, y as int) == if line.covers(
                            size,
                            x as int,
                            y as int,
                        ) && (x < cx || (x == cx && y < cy)) {
                            cell_lines(before, size, x as int, y as int).push(line)
                        } else {
                            cell_lines(before, size, x as int, y as int)
                        },
                decreases rows.1 - cy + 1,
            {
                self.append_to_cell(cx as i32, cy as i32, line);
                cy += 1;
            }
            cx += 1;
        }
        proof {
            assert forall|x: i32, y: i32| #[trigger]
                bucket(self.cells@, x as int, y as int) == cell_lines(
                    self.lines@,
                    self.cell_size,
                    x as int,
                    y as int,
                ) by {
                lemma_cell_lines_push(before, line, size, x as int, y as int);
            }
        }
    }

    /// The index of the last line of `lines` that equals `line`.
    fn last_index_of(lines: &Vec<Line>, line: &Line) -> (r: Option<usize>)
        ensures
            match r {
                Some(i) => i == last_match(lines@, *line),
                None => last_match(lines@, *line) == -1,
            },
    {
        let mut i: usize = lines.len();
        while i > 0
            invariant
                i <= lines.len(),
                forall|j: int| i <= j < lines.len() ==> !(#[trigger] lines@[j]).same(*line),
            decreases i,
        {
            i -= 1;
            if lines[i] == *line {
                proof {
                    lemma_last_match(lines@, *line);
                    let last = last_match(lines@, *line);
                    assert(lines@[i as int].same(*line));
                    if last > i {
                        assert(!lines@[last].same(*line));
                    }
                }
                return Some(i);
            }
        }
        proof {
            lemma_last_match(lines@, *line);
            if has_match(lines@, *line) {
                let j = choose|j: int| 0 <= j < lines@.len() && (#[trigger] lines@[j]).same(*line);
                assert(!lines@[j].same(*line));
            }
        }
        None
    }

    /// Takes the last line equal to `line` out of the cell `(x, y)`.
    fn take_from_cell(&mut self, x: i32, y: i32, line: &Line)
        requires
            last_match(bucket(old(self).cells@, x as int, y as int), *line) >= 0,
        ensures
            final(self).lines == old(self).lines,
            final(self).cell_size == old(self).cell_size,
            bucket(final(self).cells@, x as int, y as int) == without_last_match(
                bucket(old(self).cells@, x as int, y as int),
                *line,
            ),
            forall|u: i32, v: i32|
                (u != x || v != y) ==> #[trigger] bucket(final(self).cells@, u as int, v as int)
                    == bucket(old(self).cells@, u as int, v as int),
    {
        let key = key_of(x, y);
        match self.cells.remove(&key) {
            Some(stored) => {
                let mut stored = stored;
                proof {
                    lemma_last_match(stored@, *line);
                }
                match Self::last_index_of(&stored, line) {
                    Some(i) => {
                        stored.remove(i);
                    },
                    None => {},
                }
                self.cells.insert(key, stored);
            },
            None => {},
        }
        proof {
            assert forall|u: i32, v: i32| (u != x || v != y) implies #[trigger] bucket(
                final(self).cells@,
                u as int,
                v as int,
            ) == bucket(old(self).cells@, u as int, v as int) by {
                if cell_key(u as int, v as int) == cell_key(x as int, y as int) {
                    lemma_key_injective(u, v, x, y);
                }
            }
        }
    }

    /// Removes the line that was added last among those equal to `line`: from
    /// the grid's lines and from every cell it lies in. Returns whether
    /// there was one; the grid is unchanged when there was none.
    pub fn remove_line(&mut self, line: &Line) -> (found: bool)
        requires
            old(self).wf(),
        ensures
            final(self).wf(),
            final(self).lines() == without_last_match(old(self).lines(), *line),
            final(self).cell_size() == old(self).cell_size(),
            found == has_match(old(self).lines(), *line),
    {
        let size = self.cell_size;
        let ghost before = self.lines@;
        let ghost after = without_last_match(before, *line);
        proof {
            lemma_last_match(before, *line);
        }
        let index = match Self::last_index_of(&self.lines, line) {
            Some(index) => index,
            None => {
                return false;
            },
        };
        let removed = self.lines.remove(index);
        let columns = removed.column_range(size);
        let mut cx: i64 = columns.0 as i64;
        while cx <= columns.1 as i64
            invariant
                removed.same(*line),
                last_match(before, *line) >= 0,
                columns.0 == removed.column_low(size),
                columns.1 == removed.column_high(size),
                columns.0 <= cx <= columns.1 + 1,
                self.cell_size == size,
                self.lines@ == after,
                forall|x: i32, y: i32| #[trigger]
                    bucket(self.cells@, x as int, y as int) == if removed.covers(
                        size,
                        x as int,
                        y as int,
                    ) && x < cx {
                        without_last_match(cell_lines(before, size, x as int, y as int), *line)
                    } else {
                        cell_lines(before, size, x as int, y as int)
                    },
            decreases columns.1 - cx + 1,
        {
            let rows = removed.row_range(size, columns, cx as i32);
            let mut cy: i64 = rows.0 as i64;
            while cy <= rows.1 as i64
                invariant
                    removed.same(*line),
                    last_match(before, *line) >= 0,
                    columns.0 == removed.column_low(size),
                    columns.1 == removed.column_high(size),
                    columns.0 <= cx <= columns.1,
                    rows.0 == removed.row_low(size, cx as int),
                    rows.1 == removed.row_high(size, cx as int),
                    rows.0 <= cy <= rows.1 + 1,
                    self.cell_size == size,
                    self.lines@ == after,
                    forall|x: i32, y: i32| #[trigger]
                        bucket(self.cells@, x as int, y as int) == if removed.covers(
                            size,
                            x as int,
                            y as int,
                        ) && (x < cx || (x == cx && y < cy)) {
                            without_last_match(cell_lines(before, size, x as int, y as int), *line)
                        } else {
                            cell_lines(before, size, x as int, y as int)
                        },
                decreases rows.1 - cy + 1,
            {
                proof {
                    removed.lemma_same_covers(*line, size, cx as int, cy as int);
                    lemma_cell_lines_remove(before, *line, size, cx as int, cy as int);
                    assert(bucket(self.cells@, cx as i32 as int, cy as i32 as int) == cell_lines(
                        before,
                        size,
                        cx as int,
                        cy as int,
                    ));
                }
                self.take_from_cell(cx as i32, cy as i32, line);
                cy += 1;
            }
            cx += 1;
        }
        proof {
            assert forall|x: i32, y: i32| #[trigger]
                bucket(self.cells@, x as int, y as int) == cell_lines(
                    self.lines@,
                    self.cell_size,
                    x as int,
                    y as int,
                ) by {
                removed.lemma_same_covers(*line, size, x as int, y as int);
                lemma_cell_lines_remove(before, *line, size, x as int, y as int);
            }
        }
        true
    }

    /// Whether `found` holds a line equal to `line`.
    fn holds_match(found: &Vec<Line>, line: &Line) -> (r: bool)
        ensures
            r == has_match(found@, *line),
    {
        let mut i: usize = 0;
        while i < found.len()
            invariant
                i <= found.len(),
                forall|j: int| 0 <= j < i ==> !(#[trigger] found@[j]).same(*line),
            decreases found.len() - i,
        {
            if found[i] == *line {
                return true;
            }
            i += 1;
        }
        false
    }

    /// Adds to `found` the lines of the cell `(x, y)` that it does not hold
    /// yet.
    fn merge_cell(&self, x: i64, y: i64, found: &mut Vec<Line>)
        requires
            self.wf(),
        ensures
            final(found)@ == merge_unseen(
                old(found)@,
                cell_lines(self.lines(), self.cell_size(), x as int, y as int),
            ),
    {
        if x < i32::MIN as i64 || x > i32::MAX as i64 || y < i32::MIN as i64 || y > i32::MAX as i64 {
            proof {
                lemma_cell_lines_out_of_range(self.lines@, self.cell_size, x as int, y as int);
            }
            return ;
        }
        let key = key_of(x as i32, y as i32);
        proof {
            assert(bucket(self.cells@, x as i32 as int, y as i32 as int) == cell_lines(
                self.lines@,
                self.cell_size,
                x as int,
                y as int,
            ));
        }
        match self.cells.get(&key) {
            Some(stored) => {
                let ghost base = found@;
                let mut j: usize = 0;
                while j < stored.len()
                    invariant
                        j <= stored.len(),
                        found@ == merge_unseen(base, stored@.take(j as int)),
                    decreases stored.len() - j,
                {
                    proof {
                        assert(stored@.take(j + 1).drop_last() =~= stored@.take(j as int));
                    }
                    if !Self::holds_match(found, &stored[j]) {
                        found.push(stored[j]);
                    }
                    j += 1;
                }
                proof {
                    assert(stored@.take(stored.len() as int) =~= stored@);
                }
            },
            None => {},
        }
    }

    /// The lines met in the block of cells from column `x_low` to `x_high`
    /// and from row `y_low` to `y_high`.
    fn scan(&self, x_low: i64, x_high: i64, y_low: i64, y_high: i64) -> (found: Vec<Line>)
        requires
            self.wf(),
            x_high < i64::MAX,
            y_high < i64::MAX,
        ensures
            found@ == scan_block(
                self.lines(),
                self.cell_size(),
                x_low as int,
                x_high as int,
                y_low as int,
                y_high as int,
            ),
    {
        let mut found: Vec<Line> = Vec::new();
        if x_high < x_low {
            return found;
        }
        let mut x: i64 = x_low;
        while x <= x_high
            invariant
                self.wf(),
                x_low <= x <= x_high + 1,
                x_high < i64::MAX,
                y_high < i64::MAX,
                found@ == scan_block(
                    self.lines(),
                    self.cell_size(),
                    x_low as int,
                    x - 1,
                    y_low as int,
                    y_high as int,
                ),
            decreases x_high - x + 1,
        {
            let ghost base = found@;
            let mut y: i64 = y_low;
            while y <= y_high
                invariant
                    self.wf(),
                    y_high < i64::MAX,
                    y_low <= y,
                    y_high < y_low ==> y == y_low,
                    y_high >= y_low ==> y <= y_high + 1,
                    found@ == scan_column(
                        base,
                        self.lines(),
                        self.cell_size(),
                        x as int,
                        y_low as int,
                        y - 1,
                    ),
                decreases y_high - y + 1,
            {
                self.merge_cell(x, y, &mut found);
                y += 1;
            }
            x += 1;
        }
        found
    }

    /// The lines near `point`. The cells within `radius` cells of the point's
    /// own cell are walked column by column, from the leftmost column to the
    /// rightmost, each column from its lowest row up, and each cell in the
    /// order in which its lines were added. A line that lies in several of
    /// these cells is listed once, where it is first met.
    pub fn lines_near(&self, point: Vector2D, radius: u32) -> (found: Vec<Line>)
        requires
            self.wf(),
        ensures
            found@ == near_spec(self.lines(), self.cell_size(), point, radius),
    {
        let cx = cell_index(point.0, self.cell_size) as i64;
        let cy = cell_index(point.1, self.cell_size) as i64;
        let reach = radius as i64;
        self.scan(cx - reach, cx + reach, cy - reach, cy + reach)
    }

    /// The lines in the box with corners `p1` and `p2`, whichever corner is
    /// which. The cells between the cells of the two corners are walked as
    /// `lines_near` walks its cells, and a line is listed once.
    pub fn lines_near_box(&self, p1: Vector2D, p2: Vector2D) -> (found: Vec<Line>)
        requires
            self.wf(),
        ensures
            found@ == box_spec(self.lines(), self.cell_size(), p1, p2),
    {
        let x1 = cell_index(p1.0, self.cell_size) as i64;
        let y1 = cell_index(p1.1, self.cell_size) as i64;
        let x2 = cell_index(p2.0, self.cell_size) as i64;
        let y2 = cell_index(p2.1, self.cell_size) as i64;
        let x_low = if x1 <= x2 { x1 } else { x2 };
        let x_high = if x1 <= x2 { x2 } else { x1 };
        let y_low = if y1 <= y2 { y1 } else { y2 };
        let y_high = if y1 <= y2 { y2 } else { y1 };
        self.scan(x_low, x_high, y_low, y_high)
    }
}

} // verus!
