//! What holds of the line queries whatever the grid contains.

use vstd::prelude::*;
use crate::cell::cell_index_spec;
use crate::grid::{
    box_spec, cell_lines, has_match, last_match, lemma_cell_lines_push, merge_unseen, near_spec,
    scan_block, scan_column, without_last_match,
};
use crate::line::Line;
use crate::vector::Vector2D;

verus! {

/// Adding a line and then removing it gives back the lines that were there,
/// in their order, and with them the answer to every query near a point and
/// in a box.
pub proof fn lemma_add_then_remove_restores(
    lines: Seq<Line>,
    line: Line,
    size: u64,
    point: Vector2D,
    radius: u32,
    p1: Vector2D,
    p2: Vector2D,
)
    ensures
        without_last_match(lines.push(line), line) == lines,
        near_spec(without_last_match(lines.push(line), line), size, point, radius) == near_spec(
            lines,
            size,
            point,
            radius,
        ),
        box_spec(without_last_match(lines.push(line), line), size, p1, p2) == box_spec(
            lines,
            size,
            p1,
            p2,
        ),
{
    let added = lines.push(line);
    assert(added.last().same(line));
    assert(last_match(added, line) == added.len() - 1);
    assert(added.remove(added.len() - 1) =~= lines);
}

/// A box query gives the same lines in the same order whichever of its two
/// corners is named first.
pub proof fn lemma_box_corners_symmetric(lines: Seq<Line>, size: u64, p1: Vector2D, p2: Vector2D)
    ensures
        box_spec(lines, size, p1, p2) == box_spec(lines, size, p2, p1),
{
}

/// A cell holds exactly the lines of the grid that lie in it.
pub proof fn lemma_cell_lines_members(lines: Seq<Line>, size: u64, cx: int, cy: int, line: Line)
    ensures
        cell_lines(lines, size, cx, cy).contains(line) <==> lines.contains(line) && line.covers(
            size,
            cx,
            cy,
        ),
    decreases lines.len(),
{
    if lines.len() > 0 {
        let front = lines.drop_last();
        let last = lines.last();
        let here = cell_lines(lines, size, cx, cy);
        let front_here = cell_lines(front, size, cx, cy);
        lemma_cell_lines_members(front, size, cx, cy, line);
        if lines.contains(line) {
            let i = choose|i: int| 0 <= i < lines.len() && lines[i] == line;
            if i < front.len() {
                assert(front[i] == line);
            }
        }
        if front.contains(line) {
            let i = choose|i: int| 0 <= i < front.len() && front[i] == line;
            assert(lines[i] == line);
        }
        assert(lines[lines.len() - 1] == last);
        if last.covers(size, cx, cy) {
            assert(here == front_here.push(last));
            assert(here[here.len() - 1] == last);
            if front_here.contains(line) {
                let i = choose|i: int| 0 <= i < front_here.len() && front_here[i] == line;
                assert(here[i] == line);
            }
            if here.contains(line) {
                let i = choose|i: int| 0 <= i < here.len() && here[i] == line;
                if i < front_here.len() {
                    assert(front_here[i] == line);
                }
            }
        }
    }
}

/// Two grids with the same lines store the same single line in a cell in
/// which neither stores more than one.
pub proof fn lemma_single_line_cells_agree(
    a: Seq<Line>,
    b: Seq<Line>,
    size: u64,
    cx: int,
    cy: int,
)
    requires
        forall|line: Line| a.contains(line) <==> b.contains(line),
        cell_lines(a, size, cx, cy).len() <= 1,
        cell_lines(b, size, cx, cy).len() <= 1,
    ensures
        cell_lines(a, size, cx, cy) == cell_lines(b, size, cx, cy),
{
    let in_a = cell_lines(a, size, cx, cy);
    let in_b = cell_lines(b, size, cx, cy);
    if in_a.len() == 1 {
        let line = in_a[0];
        assert(in_a.contains(line));
        lemma_cell_lines_members(a, size, cx, cy, line);
        lemma_cell_lines_members(b, size, cx, cy, line);
        assert(in_b.contains(line));
    }
    if in_b.len() == 1 {
        let line = in_b[0];
        assert(in_b.contains(line));
        lemma_cell_lines_members(a, size, cx, cy, line);
        lemma_cell_lines_members(b, size, cx, cy, line);
        assert(in_a.contains(line));
    }
    assert(in_a =~= in_b);
}

/// The walk up one column gives the same lines for two grids whose cells in
/// that column agree.
proof fn lemma_scan_column_agrees(
    found: Seq<Line>,
    a: Seq<Line>,
    b: Seq<Line>,
    size: u64,
    cx: int,
    y_low: int,
    y_high: int,
)
    requires
        forall|y: int|
            y_low <= y <= y_high ==> #[trigger] cell_lines(a, size, cx, y) == cell_lines(
                b,
                size,
                cx,
                y,
            ),
    ensures
        scan_column(found, a, size, cx, y_low, y_high) == scan_column(
            found,
            b,
            size,
            cx,
            y_low,
            y_high,
        ),
    decreases y_high - y_low + 1,
{
    if y_high >= y_low {
        lemma_scan_column_agrees(found, a, b, size, cx, y_low, y_high - 1);
        assert(cell_lines(a, size, cx, y_high) == cell_lines(b, size, cx, y_high));
    }
}

/// The order in which lines were added shows in a query only inside a cell.
/// Let two grids hold the same lines, added in whatever order, and let no
/// cell of a block hold more than one line in either grid. Then walking the
/// block gives the same list for both: the lines in the order of their
/// cells, column by column from the left and each column from its lowest
/// row up.
pub proof fn lemma_scan_ignores_insertion_order(
    a: Seq<Line>,
    b: Seq<Line>,
    size: u64,
    x_low: int,
    x_high: int,
    y_low: int,
    y_high: int,
)
    requires
        forall|line: Line| a.contains(line) <==> b.contains(line),
        forall|x: int, y: int|
            x_low <= x <= x_high && y_low <= y <= y_high ==> (#[trigger] cell_lines(
                a,
                size,
                x,
                y,
            )).len() <= 1,
        forall|x: int, y: int|
            x_low <= x <= x_high && y_low <= y <= y_high ==> (#[trigger] cell_lines(
                b,
                size,
                x,
                y,
            )).len() <= 1,
    ensures
        scan_block(a, size, x_low, x_high, y_low, y_high) == scan_block(
            b,
            size,
            x_low,
            x_high,
            y_low,
            y_high,
        ),
    decreases x_high - x_low + 1,
{
    if x_high >= x_low {
        lemma_scan_ignores_insertion_order(a, b, size, x_low, x_high - 1, y_low, y_high);
        assert forall|y: int| y_low <= y <= y_high implies #[trigger] cell_lines(
            a,
            size,
            x_high,
            y,
        ) == cell_lines(b, size, x_high, y) by {
            assert(cell_lines(a, size, x_high, y).len() <= 1);
            assert(cell_lines(b, size, x_high, y).len() <= 1);
            lemma_single_line_cells_agree(a, b, size, x_high, y);
        }
        lemma_scan_column_agrees(
            scan_block(a, size, x_low, x_high - 1, y_low, y_high),
            a,
            b,
            size,
            x_high,
            y_low,
            y_high,
        );
    }
}

/// Whether the cell `(x, y)` lies within `radius` cells of the cell of
/// `point`.
pub open spec fn near_block(size: u64, point: Vector2D, radius: u32, x: int, y: int) -> bool {
    let cx = cell_index_spec(point.0, size) as int;
    let cy = cell_index_spec(point.1, size) as int;
    cx - radius <= x <= cx + radius && cy - radius <= y <= cy + radius
}

/// The same for a query near a point: with the same lines in both grids and
/// at most one line in each cell within `radius` cells of the point's cell,
/// `lines_near` answers alike whatever the order in which the lines were
/// added.
pub proof fn lemma_near_ignores_insertion_order(
    a: Seq<Line>,
    b: Seq<Line>,
    size: u64,
    point: Vector2D,
    radius: u32,
)
    requires
        forall|line: Line| a.contains(line) <==> b.contains(line),
        forall|x: int, y: int|
            near_block(size, point, radius, x, y) ==> (#[trigger] cell_lines(a, size, x, y)).len()
                <= 1,
        forall|x: int, y: int|
            near_block(size, point, radius, x, y) ==> (#[trigger] cell_lines(b, size, x, y)).len()
                <= 1,
    ensures
        near_spec(a, size, point, radius) == near_spec(b, size, point, radius),
{
    let cx = cell_index_spec(point.0, size) as int;
    let cy = cell_index_spec(point.1, size) as int;
    lemma_scan_ignores_insertion_order(
        a,
        b,
        size,
        cx - radius,
        cx + radius,
        cy - radius,
        cy + radius,
    );
}

/// Whether no two lines of `found` are equal.
pub open spec fn all_distinct(found: Seq<Line>) -> bool {
    forall|i: int, j: int|
        0 <= i < j < found.len() ==> !(#[trigger] found[i]).same(#[trigger] found[j])
}

/// Whether `longer` begins with the lines of `found`, in their order.
pub open spec fn begins_with(longer: Seq<Line>, found: Seq<Line>) -> bool {
    &&& found.len() <= longer.len()
    &&& forall|i: int| 0 <= i < found.len() ==> #[trigger] longer[i] == found[i]
}

/// A line that has an equal in a list has one in every list that begins
/// with it.
pub proof fn lemma_match_stays(found: Seq<Line>, longer: Seq<Line>, line: Line)
    requires
        begins_with(longer, found),
        has_match(found, line),
    ensures
        has_match(longer, line),
{
    let i = choose|i: int| 0 <= i < found.len() && (#[trigger] found[i]).same(line);
    assert(longer[i] == found[i]);
    assert(longer[i].same(line));
}

/// A merge keeps what was found, in its order; it lists no line twice if
/// none was found twice; and every extra line has its equal in it.
pub proof fn lemma_merge_unseen(found: Seq<Line>, extra: Seq<Line>)
    ensures
        begins_with(merge_unseen(found, extra), found),
        all_distinct(found) ==> all_distinct(merge_unseen(found, extra)),
        forall|k: int|
            0 <= k < extra.len() ==> has_match(merge_unseen(found, extra), #[trigger] extra[k]),
    decreases extra.len(),
{
    if extra.len() > 0 {
        let front = extra.drop_last();
        let last = extra.last();
        let before = merge_unseen(found, front);
        let merged = merge_unseen(found, extra);
        lemma_merge_unseen(found, front);
        assert(begins_with(merged, before));
        assert forall|i: int| 0 <= i < found.len() implies #[trigger] merged[i] == found[i] by {
            assert(before[i] == found[i]);
        }
        if all_distinct(found) {
            assert forall|i: int, j: int| 0 <= i < j < merged.len() implies !(
            #[trigger] merged[i]).same(#[trigger] merged[j]) by {
                if j < before.len() {
                    assert(!before[i].same(before[j]));
                } else {
                    assert(!has_match(before, last));
                    assert(merged[j] == last);
                    if merged[i].same(last) {
                        assert(before[i].same(last));
                    }
                }
            }
        }
        assert forall|k: int| 0 <= k < extra.len() implies has_match(
            merged,
            #[trigger] extra[k],
        ) by {
            if k < front.len() {
                assert(front[k] == extra[k]);
                assert(has_match(before, front[k]));
                lemma_match_stays(before, merged, extra[k]);
            } else if has_match(before, last) {
                assert(merged == before);
            } else {
                assert(merged[merged.len() - 1].same(last));
            }
        }
    }
}

/// The walk up a column keeps what was found, in its order; it lists no
/// line twice if none was found twice; and every line of every cell it
/// passes has its equal in the list.
pub proof fn lemma_scan_column(
    found: Seq<Line>,
    lines: Seq<Line>,
    size: u64,
    cx: int,
    y_low: int,
    y_high: int,
)
    ensures
        begins_with(scan_column(found, lines, size, cx, y_low, y_high), found),
        all_distinct(found) ==> all_distinct(scan_column(found, lines, size, cx, y_low, y_high)),
        forall|y: int, k: int|
            y_low <= y <= y_high && 0 <= k < cell_lines(lines, size, cx, y).len() ==> has_match(
                scan_column(found, lines, size, cx, y_low, y_high),
                #[trigger] cell_lines(lines, size, cx, y)[k],
            ),
    decreases y_high - y_low + 1,
{
    if y_high >= y_low {
        let before = scan_column(found, lines, size, cx, y_low, y_high - 1);
        let here = cell_lines(lines, size, cx, y_high);
        let after = scan_column(found, lines, size, cx, y_low, y_high);
        lemma_scan_column(found, lines, size, cx, y_low, y_high - 1);
        lemma_merge_unseen(before, here);
        assert forall|i: int| 0 <= i < found.len() implies #[trigger] after[i] == found[i] by {
            assert(before[i] == found[i]);
        }
        assert forall|y: int, k: int|
            y_low <= y <= y_high && 0 <= k < cell_lines(lines, size, cx, y).len() implies has_match(
            after,
            #[trigger] cell_lines(lines, size, cx, y)[k],
        ) by {
            if y < y_high {
                lemma_match_stays(before, after, cell_lines(lines, size, cx, y)[k]);
            }
        }
    }
}

/// A query lists no line twice: no two lines of its answer are equal.
pub proof fn lemma_query_lists_each_line_once(
    lines: Seq<Line>,
    size: u64,
    x_low: int,
    x_high: int,
    y_low: int,
    y_high: int,
)
    ensures
        all_distinct(scan_block(lines, size, x_low, x_high, y_low, y_high)),
    decreases x_high - x_low + 1,
{
    if x_high >= x_low {
        lemma_query_lists_each_line_once(lines, size, x_low, x_high - 1, y_low, y_high);
        lemma_scan_column(
            scan_block(lines, size, x_low, x_high - 1, y_low, y_high),
            lines,
            size,
            x_high,
            y_low,
            y_high,
        );
    }
}

/// A query misses no line: every line of the grid that lies in a cell of the
/// block has its equal in the answer.
pub proof fn lemma_query_lists_every_line(
    lines: Seq<Line>,
    size: u64,
    x_low: int,
    x_high: int,
    y_low: int,
    y_high: int,
    x: int,
    y: int,
    line: Line,
)
    requires
        x_low <= x <= x_high,
        y_low <= y <= y_high,
        lines.contains(line),
        line.covers(size, x, y),
    ensures
        has_match(scan_block(lines, size, x_low, x_high, y_low, y_high), line),
    decreases x_high - x_low + 1,
{
    let before = scan_block(lines, size, x_low, x_high - 1, y_low, y_high);
    let after = scan_block(lines, size, x_low, x_high, y_low, y_high);
    lemma_scan_column(before, lines, size, x_high, y_low, y_high);
    if x < x_high {
        lemma_query_lists_every_line(lines, size, x_low, x_high - 1, y_low, y_high, x, y, line);
        lemma_match_stays(before, after, line);
    } else {
        let here = cell_lines(lines, size, x, y);
        lemma_cell_lines_members(lines, size, x, y, line);
        let k = choose|k: int| 0 <= k < here.len() && here[k] == line;
        assert(has_match(after, here[k]));
    }
}

/// A line lies in the cells of both its ends, provided the cell of its left
/// end is not to the right of the cell of its right end.
pub proof fn lemma_covers_both_ends(line: Line, size: u64)
    requires
        cell_index_spec(line.left_end().0, size) <= cell_index_spec(line.right_end().0, size),
    ensures
        line.covers(
            size,
            cell_index_spec(line.ends.0.location.0, size) as int,
            cell_index_spec(line.ends.0.location.1, size) as int,
        ),
        line.covers(
            size,
            cell_index_spec(line.ends.1.location.0, size) as int,
            cell_index_spec(line.ends.1.location.1, size) as int,
        ),
{
}

/// Whether the line lies in a cell of the block from column `x_low` to
/// `x_high` and from row `y_low` to `y_high`.
pub open spec fn lies_in_block(
    line: Line,
    size: u64,
    x_low: int,
    x_high: int,
    y_low: int,
    y_high: int,
) -> bool {
    exists|x: int, y: int|
        x_low <= x <= x_high && y_low <= y <= y_high && #[trigger] line.covers(size, x, y)
}

/// Every line that a merge lists was found before or is one of the extra
/// lines.
pub proof fn lemma_merge_unseen_members(found: Seq<Line>, extra: Seq<Line>, line: Line)
    requires
        merge_unseen(found, extra).contains(line),
    ensures
        found.contains(line) || extra.contains(line),
    decreases extra.len(),
{
    if extra.len() > 0 {
        let before = merge_unseen(found, extra.drop_last());
        let merged = merge_unseen(found, extra);
        let i = choose|i: int| 0 <= i < merged.len() && merged[i] == line;
        if i < before.len() {
            assert(before[i] == line);
            lemma_merge_unseen_members(found, extra.drop_last(), line);
            if extra.drop_last().contains(line) {
                let j = choose|j: int|
                    0 <= j < extra.drop_last().len() && extra.drop_last()[j] == line;
                assert(extra[j] == line);
            }
        } else {
            assert(extra[extra.len() - 1] == line);
        }
    }
}

/// Every line that the walk up a column lists was found before, or is a
/// line of the grid that lies in one of the cells passed.
pub proof fn lemma_scan_column_members(
    found: Seq<Line>,
    lines: Seq<Line>,
    size: u64,
    cx: int,
    y_low: int,
    y_high: int,
    line: Line,
)
    requires
        scan_column(found, lines, size, cx, y_low, y_high).contains(line),
    ensures
        found.contains(line) || (lines.contains(line) && lies_in_block(
            line,
            size,
            cx,
            cx,
            y_low,
            y_high,
        )),
    decreases y_high - y_low + 1,
{
    if y_high >= y_low {
        let before = scan_column(found, lines, size, cx, y_low, y_high - 1);
        lemma_merge_unseen_members(before, cell_lines(lines, size, cx, y_high), line);
        if before.contains(line) {
            lemma_scan_column_members(found, lines, size, cx, y_low, y_high - 1, line);
            if !found.contains(line) {
                let (x, y) = choose|x: int, y: int|
                    cx <= x <= cx && y_low <= y <= y_high - 1 && #[trigger] line.covers(size, x, y);
                assert(cx <= x <= cx && y_low <= y <= y_high && line.covers(size, x, y));
            }
        } else {
            lemma_cell_lines_members(lines, size, cx, y_high, line);
            assert(cx <= cx <= cx && y_low <= y_high <= y_high && line.covers(size, cx, y_high));
        }
    }
}

/// A query lists nothing that is not there: every line of its answer is a
/// line of the grid and lies in a cell of the block.
pub proof fn lemma_scan_block_members(
    lines: Seq<Line>,
    size: u64,
    x_low: int,
    x_high: int,
    y_low: int,
    y_high: int,
    line: Line,
)
    requires
        scan_block(lines, size, x_low, x_high, y_low, y_high).contains(line),
    ensures
        lines.contains(line),
        lies_in_block(line, size, x_low, x_high, y_low, y_high),
    decreases x_high - x_low + 1,
{
    if x_high >= x_low {
        let before = scan_block(lines, size, x_low, x_high - 1, y_low, y_high);
        lemma_scan_column_members(before, lines, size, x_high, y_low, y_high, line);
        if before.contains(line) {
            lemma_scan_block_members(lines, size, x_low, x_high - 1, y_low, y_high, line);
            let (x, y) = choose|x: int, y: int|
                x_low <= x <= x_high - 1 && y_low <= y <= y_high && #[trigger] line.covers(
                    size,
                    x,
                    y,
                );
            assert(x_low <= x <= x_high && y_low <= y <= y_high && line.covers(size, x, y));
        } else {
            let (x, y) = choose|x: int, y: int|
                x_high <= x <= x_high && y_low <= y <= y_high && #[trigger] line.covers(size, x, y);
            assert(x_low <= x <= x_high && y_low <= y <= y_high && line.covers(size, x, y));
        }
    } else {
        let found = scan_block(lines, size, x_low, x_high, y_low, y_high);
        assert(found.len() == 0);
    }
}

/// The lines of the cells of column `cx` from row `y_low` up to row
/// `y_high`, cell after cell, each cell's lines in the order in which they
/// were added.
pub open spec fn column_lines(lines: Seq<Line>, size: u64, cx: int, y_low: int, y_high: int) -> Seq<
    Line,
>
    decreases y_high - y_low + 1,
{
    if y_high < y_low {
        Seq::empty()
    } else {
        column_lines(lines, size, cx, y_low, y_high - 1) + cell_lines(lines, size, cx, y_high)
    }
}

/// The lines of the cells of a block, column after column from the left,
/// each column from its lowest row up.
pub open spec fn block_lines(
    lines: Seq<Line>,
    size: u64,
    x_low: int,
    x_high: int,
    y_low: int,
    y_high: int,
) -> Seq<Line>
    decreases x_high - x_low + 1,
{
    if x_high < x_low {
        Seq::empty()
    } else {
        block_lines(lines, size, x_low, x_high - 1, y_low, y_high) + column_lines(
            lines,
            size,
            x_high,
            y_low,
            y_high,
        )
    }
}

/// Whether each line lies in at most one cell of the block.
pub open spec fn one_cell_each(
    lines: Seq<Line>,
    size: u64,
    x_low: int,
    x_high: int,
    y_low: int,
    y_high: int,
) -> bool {
    forall|i: int, x1: int, y1: int, x2: int, y2: int|
        0 <= i < lines.len() && x_low <= x1 <= x_high && y_low <= y1 <= y_high && x_low <= x2
            <= x_high && y_low <= y2 <= y_high && #[trigger] lines[i].covers(size, x1, y1)
            && #[trigger] lines[i].covers(size, x2, y2) ==> x1 == x2 && y1 == y2
}

/// A merge with lines of which none is equal to another or to a line found
/// before appends them all.
pub proof fn lemma_merge_of_new(found: Seq<Line>, extra: Seq<Line>)
    requires
        all_distinct(found + extra),
    ensures
        merge_unseen(found, extra) == found + extra,
    decreases extra.len(),
{
    if extra.len() == 0 {
        assert(found + extra =~= found);
    } else {
        let front = extra.drop_last();
        let last = extra.last();
        let whole = found + extra;
        assert(found + front =~= whole.drop_last());
        assert forall|i: int, j: int| 0 <= i < j < (found + front).len() implies !(#[trigger] (found
            + front)[i]).same(#[trigger] (found + front)[j]) by {
            assert((found + front)[i] == whole[i]);
            assert((found + front)[j] == whole[j]);
        }
        lemma_merge_of_new(found, front);
        if has_match(found + front, last) {
            let i = choose|i: int|
                0 <= i < (found + front).len() && (#[trigger] (found + front)[i]).same(last);
            assert(whole[i] == (found + front)[i]);
            assert(whole[whole.len() - 1] == last);
            assert(!whole[i].same(whole[whole.len() - 1]));
        }
        assert((found + front).push(last) =~= whole);
    }
}

/// Where no two of the lines met are equal, the walk up a column lists the
/// lines of its cells, cell after cell.
pub proof fn lemma_scan_column_of_new(
    found: Seq<Line>,
    lines: Seq<Line>,
    size: u64,
    cx: int,
    y_low: int,
    y_high: int,
)
    requires
        all_distinct(found + column_lines(lines, size, cx, y_low, y_high)),
    ensures
        scan_column(found, lines, size, cx, y_low, y_high) == found + column_lines(
            lines,
            size,
            cx,
            y_low,
            y_high,
        ),
    decreases y_high - y_low + 1,
{
    if y_high < y_low {
        assert(found + column_lines(lines, size, cx, y_low, y_high) =~= found);
    } else {
        let below = column_lines(lines, size, cx, y_low, y_high - 1);
        let here = cell_lines(lines, size, cx, y_high);
        let whole = found + column_lines(lines, size, cx, y_low, y_high);
        assert(whole =~= (found + below) + here);
        assert forall|i: int, j: int| 0 <= i < j < (found + below).len() implies !(#[trigger] (found
            + below)[i]).same(#[trigger] (found + below)[j]) by {
            assert((found + below)[i] == whole[i]);
            assert((found + below)[j] == whole[j]);
        }
        lemma_scan_column_of_new(found, lines, size, cx, y_low, y_high - 1);
        lemma_merge_of_new(found + below, here);
    }
}

/// Where no two of the lines of its cells are equal, a query lists the lines
/// of the cells of its block, cell after cell.
pub proof fn lemma_scan_block_of_new(
    lines: Seq<Line>,
    size: u64,
    x_low: int,
    x_high: int,
    y_low: int,
    y_high: int,
)
    requires
        all_distinct(block_lines(lines, size, x_low, x_high, y_low, y_high)),
    ensures
        scan_block(lines, size, x_low, x_high, y_low, y_high) == block_lines(
            lines,
            size,
            x_low,
            x_high,
            y_low,
            y_high,
        ),
    decreases x_high - x_low + 1,
{
    if x_high >= x_low {
        let left = block_lines(lines, size, x_low, x_high - 1, y_low, y_high);
        let whole = block_lines(lines, size, x_low, x_high, y_low, y_high);
        assert forall|i: int, j: int| 0 <= i < j < left.len() implies !(#[trigger] left[i]).same(
            #[trigger] left[j],
        ) by {
            assert(left[i] == whole[i]);
            assert(left[j] == whole[j]);
        }
        lemma_scan_block_of_new(lines, size, x_low, x_high - 1, y_low, y_high);
        lemma_scan_column_of_new(left, lines, size, x_high, y_low, y_high);
    }
}

/// The lines of a cell are distinct where the lines of the grid are.
pub proof fn lemma_cell_lines_distinct(lines: Seq<Line>, size: u64, cx: int, cy: int)
    requires
        all_distinct(lines),
    ensures
        all_distinct(cell_lines(lines, size, cx, cy)),
    decreases lines.len(),
{
    if lines.len() > 0 {
        let front = lines.drop_last();
        let last = lines.last();
        let here = cell_lines(lines, size, cx, cy);
        let front_here = cell_lines(front, size, cx, cy);
        assert forall|i: int, j: int| 0 <= i < j < front.len() implies !(#[trigger] front[i]).same(
            #[trigger] front[j],
        ) by {
            assert(front[i] == lines[i]);
            assert(front[j] == lines[j]);
        }
        lemma_cell_lines_distinct(front, size, cx, cy);
        assert forall|i: int, j: int| 0 <= i < j < here.len() implies !(#[trigger] here[i]).same(
            #[trigger] here[j],
        ) by {
            if j < front_here.len() {
                assert(here[i] == front_here[i]);
                assert(here[j] == front_here[j]);
            } else {
                assert(here[j] == last);
                assert(here[i] == front_here[i]);
                assert(front_here.contains(front_here[i]));
                lemma_cell_lines_members(front, size, cx, cy, front_here[i]);
                let k = choose|k: int| 0 <= k < front.len() && front[k] == front_here[i];
                assert(lines[k] == front_here[i]);
                assert(lines[lines.len() - 1] == last);
                assert(!lines[k].same(lines[lines.len() - 1]));
            }
        }
    }
}

/// Every line of a column's cells is a line of the grid that lies in one of
/// those cells.
pub proof fn lemma_column_lines_members(
    lines: Seq<Line>,
    size: u64,
    cx: int,
    y_low: int,
    y_high: int,
    line: Line,
)
    requires
        column_lines(lines, size, cx, y_low, y_high).contains(line),
    ensures
        lines.contains(line),
        lies_in_block(line, size, cx, cx, y_low, y_high),
    decreases y_high - y_low + 1,
{
    if y_high >= y_low {
        let below = column_lines(lines, size, cx, y_low, y_high - 1);
        let here = cell_lines(lines, size, cx, y_high);
        let whole = column_lines(lines, size, cx, y_low, y_high);
        let i = choose|i: int| 0 <= i < whole.len() && whole[i] == line;
        if i < below.len() {
            assert(below[i] == line);
            lemma_column_lines_members(lines, size, cx, y_low, y_high - 1, line);
            let (x, y) = choose|x: int, y: int|
                cx <= x <= cx && y_low <= y <= y_high - 1 && #[trigger] line.covers(size, x, y);
            assert(cx <= x <= cx && y_low <= y <= y_high && line.covers(size, x, y));
        } else {
            assert(here[i - below.len()] == line);
            lemma_cell_lines_members(lines, size, cx, y_high, line);
            assert(cx <= cx <= cx && y_low <= y_high <= y_high && line.covers(size, cx, y_high));
        }
    } else {
        assert(column_lines(lines, size, cx, y_low, y_high).len() == 0);
    }
}

/// Every line of a block's cells is a line of the grid that lies in one of
/// those cells.
pub proof fn lemma_block_lines_members(
    lines: Seq<Line>,
    size: u64,
    x_low: int,
    x_high: int,
    y_low: int,
    y_high: int,
    line: Line,
)
    requires
        block_lines(lines, size, x_low, x_high, y_low, y_high).contains(line),
    ensures
        lines.contains(line),
        lies_in_block(line, size, x_low, x_high, y_low, y_high),
    decreases x_high - x_low + 1,
{
    if x_high >= x_low {
        let left = block_lines(lines, size, x_low, x_high - 1, y_low, y_high);
        let column = column_lines(lines, size, x_high, y_low, y_high);
        let whole = block_lines(lines, size, x_low, x_high, y_low, y_high);
        let i = choose|i: int| 0 <= i < whole.len() && whole[i] == line;
        if i < left.len() {
            assert(left[i] == line);
            lemma_block_lines_members(lines, size, x_low, x_high - 1, y_low, y_high, line);
            let (x, y) = choose|x: int, y: int|
                x_low <= x <= x_high - 1 && y_low <= y <= y_high && #[trigger] line.covers(
                    size,
                    x,
                    y,
                );
            assert(x_low <= x <= x_high && y_low <= y <= y_high && line.covers(size, x, y));
        } else {
            assert(column[i - left.len()] == line);
            lemma_column_lines_members(lines, size, x_high, y_low, y_high, line);
            let (x, y) = choose|x: int, y: int|
                x_high <= x <= x_high && y_low <= y <= y_high && #[trigger] line.covers(size, x, y);
            assert(x_low <= x <= x_high && y_low <= y <= y_high && line.covers(size, x, y));
        }
    } else {
        assert(block_lines(lines, size, x_low, x_high, y_low, y_high).len() == 0);
    }
}

/// Among distinct lines, two lines of the grid that are equal are one line.
pub proof fn lemma_distinct_members(lines: Seq<Line>, a: Line, b: Line)
    requires
        all_distinct(lines),
        lines.contains(a),
        lines.contains(b),
        a.same(b),
    ensures
        a == b,
{
    let i = choose|i: int| 0 <= i < lines.len() && lines[i] == a;
    let j = choose|j: int| 0 <= j < lines.len() && lines[j] == b;
    if i < j {
        assert(!lines[i].same(lines[j]));
    } else if j < i {
        assert(!lines[j].same(lines[i]));
    }
}

/// Two lists without equal lines, of which no line of the one equals a line
/// of the other, make one list without equal lines.
pub proof fn lemma_distinct_concat(first: Seq<Line>, second: Seq<Line>)
    requires
        all_distinct(first),
        all_distinct(second),
        forall|i: int, j: int|
            0 <= i < first.len() && 0 <= j < second.len() ==> !(#[trigger] first[i]).same(
                #[trigger] second[j],
            ),
    ensures
        all_distinct(first + second),
{
    let whole = first + second;
    assert forall|i: int, j: int| 0 <= i < j < whole.len() implies !(#[trigger] whole[i]).same(
        #[trigger] whole[j],
    ) by {
        if j < first.len() {
            assert(!first[i].same(first[j]));
        } else if i < first.len() {
            assert(!first[i].same(second[j - first.len()]));
        } else {
            assert(!second[i - first.len()].same(second[j - first.len()]));
        }
    }
}

/// The lines of a column's cells are distinct where the lines of the grid
/// are and each lies in one cell only.
pub proof fn lemma_column_lines_distinct(
    lines: Seq<Line>,
    size: u64,
    cx: int,
    x_low: int,
    x_high: int,
    y_low: int,
    y_high: int,
    y_top: int,
)
    requires
        all_distinct(lines),
        one_cell_each(lines, size, x_low, x_high, y_low, y_high),
        x_low <= cx <= x_high,
        y_top <= y_high,
    ensures
        all_distinct(column_lines(lines, size, cx, y_low, y_top)),
    decreases y_top - y_low + 1,
{
    if y_top >= y_low {
        let below = column_lines(lines, size, cx, y_low, y_top - 1);
        let here = cell_lines(lines, size, cx, y_top);
        lemma_column_lines_distinct(lines, size, cx, x_low, x_high, y_low, y_high, y_top - 1);
        lemma_cell_lines_distinct(lines, size, cx, y_top);
        assert forall|i: int, j: int| 0 <= i < below.len() && 0 <= j < here.len() implies !(
        #[trigger] below[i]).same(#[trigger] here[j]) by {
            if below[i].same(here[j]) {
                assert(below.contains(below[i]));
                assert(here.contains(here[j]));
                lemma_column_lines_members(lines, size, cx, y_low, y_top - 1, below[i]);
                lemma_cell_lines_members(lines, size, cx, y_top, here[j]);
                lemma_distinct_members(lines, below[i], here[j]);
                let (x, y) = choose|x: int, y: int|
                    cx <= x <= cx && y_low <= y <= y_top - 1 && #[trigger] below[i].covers(
                        size,
                        x,
                        y,
                    );
                let k = choose|k: int| 0 <= k < lines.len() && lines[k] == below[i];
                assert(lines[k].covers(size, x, y));
                assert(lines[k].covers(size, cx, y_top));
            }
        }
        lemma_distinct_concat(below, here);
    }
}

/// The lines of a block's cells are distinct where the lines of the grid
/// are and each lies in one cell only.
pub proof fn lemma_block_lines_distinct(
    lines: Seq<Line>,
    size: u64,
    x_low: int,
    x_high: int,
    y_low: int,
    y_high: int,
    x_top: int,
)
    requires
        all_distinct(lines),
        one_cell_each(lines, size, x_low, x_high, y_low, y_high),
        x_top <= x_high,
    ensures
        all_distinct(block_lines(lines, size, x_low, x_top, y_low, y_high)),
    decreases x_top - x_low + 1,
{
    if x_top >= x_low {
        let left = block_lines(lines, size, x_low, x_top - 1, y_low, y_high);
        let column = column_lines(lines, size, x_top, y_low, y_high);
        lemma_block_lines_distinct(lines, size, x_low, x_high, y_low, y_high, x_top - 1);
        lemma_column_lines_distinct(lines, size, x_top, x_low, x_high, y_low, y_high, y_high);
        assert forall|i: int, j: int| 0 <= i < left.len() && 0 <= j < column.len() implies !(
        #[trigger] left[i]).same(#[trigger] column[j]) by {
            if left[i].same(column[j]) {
                assert(left.contains(left[i]));
                assert(column.contains(column[j]));
                lemma_block_lines_members(lines, size, x_low, x_top - 1, y_low, y_high, left[i]);
                lemma_column_lines_members(lines, size, x_top, y_low, y_high, column[j]);
                lemma_distinct_members(lines, left[i], column[j]);
                let (x1, y1) = choose|x: int, y: int|
                    x_low <= x <= x_top - 1 && y_low <= y <= y_high && #[trigger] left[i].covers(
                        size,
                        x,
                        y,
                    );
                let (x2, y2) = choose|x: int, y: int|
                    x_top <= x <= x_top && y_low <= y <= y_high && #[trigger] column[j].covers(
                        size,
                        x,
                        y,
                    );
                let k = choose|k: int| 0 <= k < lines.len() && lines[k] == left[i];
                assert(lines[k].covers(size, x1, y1));
                assert(lines[k].covers(size, x2, y2));
            }
        }
        lemma_distinct_concat(left, column);
    }
}

/// Lines in cells of their own come out in the order of their cells. Let no
/// two lines of the grid be equal, and let each lie in at most one cell of
/// the block. Then the query lists the lines of the block's cells cell after
/// cell: column after column from the left, each column from its lowest row
/// up. With at most one line in each cell, that is the order of the cells
/// and nothing else.
pub proof fn lemma_query_in_cell_order(
    lines: Seq<Line>,
    size: u64,
    x_low: int,
    x_high: int,
    y_low: int,
    y_high: int,
)
    requires
        all_distinct(lines),
        one_cell_each(lines, size, x_low, x_high, y_low, y_high),
    ensures
        scan_block(lines, size, x_low, x_high, y_low, y_high) == block_lines(
            lines,
            size,
            x_low,
            x_high,
            y_low,
            y_high,
        ),
{
    lemma_block_lines_distinct(lines, size, x_low, x_high, y_low, y_high, x_high);
    lemma_scan_block_of_new(lines, size, x_low, x_high, y_low, y_high);
}

/// The lines that are not scenery, in their order.
pub open spec fn solid_lines(lines: Seq<Line>) -> Seq<Line>
    decreases lines.len(),
{
    if lines.len() == 0 {
        Seq::empty()
    } else if lines.last().line_type is Scenery {
        solid_lines(lines.drop_last())
    } else {
        solid_lines(lines.drop_last()).push(lines.last())
    }
}

/// A line added at the end is added at the end of the solid lines, unless it
/// is scenery.
pub proof fn lemma_solid_push(lines: Seq<Line>, line: Line)
    ensures
        solid_lines(lines.push(line)) == if line.line_type is Scenery {
            solid_lines(lines)
        } else {
            solid_lines(lines).push(line)
        },
{
    assert(lines.push(line).drop_last() =~= lines);
}

/// The solid lines are the lines that are not scenery.
pub proof fn lemma_solid_members(lines: Seq<Line>, line: Line)
    ensures
        solid_lines(lines).contains(line) <==> lines.contains(line) && !(line.line_type
            is Scenery),
    decreases lines.len(),
{
    if lines.len() > 0 {
        let front = lines.drop_last();
        let last = lines.last();
        let solid = solid_lines(lines);
        let front_solid = solid_lines(front);
        lemma_solid_members(front, line);
        if lines.contains(line) {
            let i = choose|i: int| 0 <= i < lines.len() && lines[i] == line;
            if i < front.len() {
                assert(front[i] == line);
            }
        }
        if front.contains(line) {
            let i = choose|i: int| 0 <= i < front.len() && front[i] == line;
            assert(lines[i] == line);
        }
        assert(lines[lines.len() - 1] == last);
        if !(last.line_type is Scenery) {
            assert(solid[solid.len() - 1] == last);
            if front_solid.contains(line) {
                let i = choose|i: int| 0 <= i < front_solid.len() && front_solid[i] == line;
                assert(solid[i] == line);
            }
            if solid.contains(line) {
                let i = choose|i: int| 0 <= i < solid.len() && solid[i] == line;
                if i < front_solid.len() {
                    assert(front_solid[i] == line);
                }
            }
        }
    }
}

/// A line that is not scenery has an equal among some lines exactly when it
/// has one among the solid ones: a line equal to it is no scenery either.
pub proof fn lemma_solid_match(found: Seq<Line>, line: Line)
    requires
        !(line.line_type is Scenery),
    ensures
        has_match(found, line) <==> has_match(solid_lines(found), line),
{
    let solid = solid_lines(found);
    if has_match(found, line) {
        let i = choose|i: int| 0 <= i < found.len() && (#[trigger] found[i]).same(line);
        assert(found.contains(found[i]));
        lemma_solid_members(found, found[i]);
        let j = choose|j: int| 0 <= j < solid.len() && solid[j] == found[i];
        assert(solid[j].same(line));
    }
    if has_match(solid, line) {
        let j = choose|j: int| 0 <= j < solid.len() && (#[trigger] solid[j]).same(line);
        assert(solid.contains(solid[j]));
        lemma_solid_members(found, solid[j]);
        let i = choose|i: int| 0 <= i < found.len() && found[i] == solid[j];
        assert(found[i].same(line));
    }
}

/// The solid lines of a cell are the lines of the cell in the grid of the
/// solid lines.
pub proof fn lemma_solid_cell_lines(lines: Seq<Line>, size: u64, cx: int, cy: int)
    ensures
        solid_lines(cell_lines(lines, size, cx, cy)) == cell_lines(
            solid_lines(lines),
            size,
            cx,
            cy,
        ),
    decreases lines.len(),
{
    if lines.len() > 0 {
        let front = lines.drop_last();
        let last = lines.last();
        lemma_solid_cell_lines(front, size, cx, cy);
        if last.covers(size, cx, cy) {
            lemma_solid_push(cell_lines(front, size, cx, cy), last);
        }
        if !(last.line_type is Scenery) {
            lemma_cell_lines_push(solid_lines(front), last, size, cx, cy);
        }
    }
}

/// The solid lines of a merge are the merge of the solid lines.
pub proof fn lemma_solid_merge(found: Seq<Line>, extra: Seq<Line>)
    ensures
        solid_lines(merge_unseen(found, extra)) == merge_unseen(
            solid_lines(found),
            solid_lines(extra),
        ),
    decreases extra.len(),
{
    if extra.len() > 0 {
        let front = extra.drop_last();
        let last = extra.last();
        let before = merge_unseen(found, front);
        lemma_solid_merge(found, front);
        lemma_solid_push(before, last);
        if !(last.line_type is Scenery) {
            lemma_solid_match(before, last);
            assert(solid_lines(front).push(last).drop_last() =~= solid_lines(front));
        }
    }
}

/// The solid lines of the walk up a column are the walk up that column in
/// the grid of the solid lines.
pub proof fn lemma_solid_scan_column(
    found: Seq<Line>,
    lines: Seq<Line>,
    size: u64,
    cx: int,
    y_low: int,
    y_high: int,
)
    ensures
        solid_lines(scan_column(found, lines, size, cx, y_low, y_high)) == scan_column(
            solid_lines(found),
            solid_lines(lines),
            size,
            cx,
            y_low,
            y_high,
        ),
    decreases y_high - y_low + 1,
{
    if y_high >= y_low {
        lemma_solid_scan_column(found, lines, size, cx, y_low, y_high - 1);
        lemma_solid_merge(
            scan_column(found, lines, size, cx, y_low, y_high - 1),
            cell_lines(lines, size, cx, y_high),
        );
        lemma_solid_cell_lines(lines, size, cx, y_high);
    }
}

/// Scenery does not disturb a query: the answer without its scenery is the
/// answer of the grid without its scenery.
pub proof fn lemma_solid_scan_block(
    lines: Seq<Line>,
    size: u64,
    x_low: int,
    x_high: int,
    y_low: int,
    y_high: int,
)
    ensures
        solid_lines(scan_block(lines, size, x_low, x_high, y_low, y_high)) == scan_block(
            solid_lines(lines),
            size,
            x_low,
            x_high,
            y_low,
            y_high,
        ),
    decreases x_high - x_low + 1,
{
    if x_high >= x_low {
        lemma_solid_scan_block(lines, size, x_low, x_high - 1, y_low, y_high);
        lemma_solid_scan_column(
            scan_block(lines, size, x_low, x_high - 1, y_low, y_high),
            lines,
            size,
            x_high,
            y_low,
            y_high,
        );
    }
}

} // verus!
