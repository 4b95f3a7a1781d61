use lr_physics::grid::Grid;
use lr_physics::line::Line;
use lr_physics::vector::Vector2D;

const DEFAULT_CELL_SIZE: f64 = 14.0;

fn v(x: f64, y: f64) -> Vector2D {
    Vector2D(x.to_bits(), y.to_bits())
}

fn segment(x1: f64, y1: f64, x2: f64, y2: f64) -> Line {
    Line::builder()
        .point(x1.to_bits(), y1.to_bits())
        .point(x2.to_bits(), y2.to_bits())
        .build()
}

fn grid_of(lines: Vec<Line>) -> Grid {
    Grid::new(lines, DEFAULT_CELL_SIZE.to_bits())
}

/// Whether the two lists hold the same lines, whatever the order.
fn same_set(found: &Vec<Line>, expected: &[Line]) -> bool {
    found.len() == expected.len()
        && found.iter().all(|l| expected.contains(l))
        && expected.iter().all(|l| found.contains(l))
}

#[test]
fn infinite_slope_line() {
    let line = segment(0.0, 0.0, 0.0, 100.0);

    let grid = grid_of(vec![line]);

    let nearby = grid.lines_near(v(0.0, 0.0), 1);
    assert_eq!(nearby, vec![line]);

    let nearby = grid.lines_near(v(0.0, 50.0), 1);
    assert_eq!(nearby, vec![line]);

    let nearby = grid.lines_near(v(0.0, -10.0), 1);
    assert_eq!(nearby, vec![line]);

    let nearby = grid.lines_near(v(25.0, 110.0), 1);
    assert_eq!(nearby, vec![line]);

    let nearby = grid.lines_near(v(0.0, 150.0), 1);
    assert_eq!(nearby, Vec::<Line>::new());

    let nearby = grid.lines_near(v(0.0, -25.0), 1);
    assert_eq!(nearby, Vec::<Line>::new());
}

#[test]
fn zero_slope_line() {
    let line = segment(0.0, 0.0, 100.0, 0.0);

    let grid = grid_of(vec![line]);

    let nearby = grid.lines_near(v(0.0, 0.0), 1);
    assert_eq!(nearby, vec![line]);

    let nearby = grid.lines_near(v(50.0, 0.0), 1);
    assert_eq!(nearby, vec![line]);

    let nearby = grid.lines_near(v(-10.0, 0.0), 1);
    assert_eq!(nearby, vec![line]);

    let nearby = grid.lines_near(v(110.0, 22.0), 1);
    assert_eq!(nearby, vec![line]);

    let nearby = grid.lines_near(v(150.0, 0.0), 1);
    assert_eq!(nearby, Vec::<Line>::new());

    let nearby = grid.lines_near(v(-30.0, 0.0), 1);
    assert_eq!(nearby, Vec::<Line>::new());
}

#[test]
fn positive_slope_line() {
    let line = segment(45.124, 98.348952734, 435.47457, 348.3489237);

    let grid = grid_of(vec![line]);

    let nearby = grid.lines_near(v(0.0, 0.0), 1);
    assert_eq!(nearby, Vec::<Line>::new());

    let nearby = grid.lines_near(v(100.0, 125.0), 1);
    assert_eq!(nearby, vec![line]);

    let nearby = grid.lines_near(v(400.0, 320.0), 1);
    assert_eq!(nearby, vec![line]);
}

#[test]
fn negative_slope_line() {
    let line = segment(45.124, 348.3489237, 435.47457, 98.348952734);

    let grid = grid_of(vec![line]);

    let nearby = grid.lines_near(v(0.0, 0.0), 1);
    assert_eq!(nearby, Vec::<Line>::new());

    let nearby = grid.lines_near(v(200.0, 220.0), 1);
    assert_eq!(nearby, vec![line]);

    let nearby = grid.lines_near(v(400.0, 100.0), 1);
    assert_eq!(nearby, vec![line]);
}

#[test]
fn has_negative_x() {
    let line = segment(-100.0, 0.0, -10.0, 50.0);

    let grid = grid_of(vec![line]);

    let nearby = grid.lines_near(v(0.0, 0.0), 1);
    assert_eq!(nearby, Vec::<Line>::new());

    let nearby = grid.lines_near(v(-100.0, 5.0), 1);
    assert_eq!(nearby, vec![line]);

    let nearby = grid.lines_near(v(-50.0, 25.0), 1);
    assert_eq!(nearby, vec![line]);
}

#[test]
fn has_negative_y() {
    let line = segment(0.0, -100.0, 150.0, 50.0);

    let grid = grid_of(vec![line]);

    let nearby = grid.lines_near(v(0.0, 0.0), 1);
    assert_eq!(nearby, Vec::<Line>::new());

    let nearby = grid.lines_near(v(50.0, -40.0), 1);
    assert_eq!(nearby, vec![line]);
}

#[test]
fn has_negative_y_and_negative_slope() {
    let line = segment(0.0, -100.0, 50.0, -250.0);

    let grid = grid_of(vec![line]);

    let nearby = grid.lines_near(v(0.0, 0.0), 1);
    assert_eq!(nearby, Vec::<Line>::new());

    let nearby = grid.lines_near(v(25.0, -175.0), 1);
    assert_eq!(nearby, vec![line]);
}

#[test]
fn multiple_lines() {
    let line1 = segment(0.0, 0.0, 100.0, 0.0);
    let line2 = segment(1.0, 0.0, 100.0, 0.0);
    let line3 = segment(2.0, 0.0, 100.0, 0.0);
    let far_line = segment(0.0, 1000.0, 100.0, 1000.0);
    let grid = grid_of(vec![line1, line2, line3, far_line]);

    let lines = grid.lines_near(v(50.0, 0.0), 1);
    assert!(same_set(&lines, &[line1, line2, line3]));
}

#[test]
fn multiple_lines_with_remove() {
    let line1 = segment(0.0, 0.0, 100.0, 0.0);
    let line2 = segment(1.0, 0.0, 100.0, 0.0);
    let line3 = segment(2.0, 0.0, 100.0, 0.0);
    let far_line = segment(0.0, 1000.0, 100.0, 1000.0);

    let mut grid = grid_of(vec![line1, line2, line3, far_line]);

    grid.remove_line(&line2);

    let lines = grid.lines_near(v(50.0, 0.0), 1);
    assert!(same_set(&lines, &[line1, line3]));
}

#[test]
fn multiple_lines_with_remove_last() {
    let line1 = segment(0.0, 0.0, 100.0, 0.0);
    let line2 = segment(1.0, 0.0, 100.0, 0.0);
    let line3 = segment(2.0, 0.0, 100.0, 0.0);
    let far_line = segment(0.0, 1000.0, 100.0, 1000.0);

    let mut grid = grid_of(vec![line1, line2, line3, far_line]);

    grid.remove_line(&far_line);

    let lines = grid.lines_near(v(50.0, 0.0), 1);
    assert!(same_set(&lines, &[line1, line2, line3]));
}

#[test]
fn all_lines_duplicates() {
    let line1 = segment(0.0, 0.0, 100.0, 0.0);
    let line2 = segment(1.0, 0.0, 100.0, 0.0);
    let line3 = segment(2.0, 0.0, 100.0, 0.0);
    let line4 = segment(2.0, 0.0, 100.0, 0.0);
    let far_line = segment(0.0, 1000.0, 100.0, 1000.0);

    let grid = grid_of(vec![line1, line2, line3, line4, far_line]);

    let lines = grid.all_lines();
    assert_eq!(lines, &vec![line1, line2, line3, line4, far_line]);
}

#[test]
fn lines_in_box() {
    let line = segment(0.0, 0.0, 100.0, 0.0);

    let grid = grid_of(vec![line]);

    let should_contain_line_cases = vec![
        grid.lines_near_box(v(-5.0, -5.0), v(5.0, 5.0)),
        grid.lines_near_box(v(0.0, 0.0), v(0.0, 0.0)),
        grid.lines_near_box(v(100.0, 0.0), v(100.0, 0.0)),
        grid.lines_near_box(v(50.0, 0.0), v(50.0, 0.0)),
        grid.lines_near_box(v(-30.0, -40.0), v(5.0, 20.0)),
        grid.lines_near_box(v(5.0, 20.0), v(-30.0, -40.0)),
    ];
    let should_not_contain_line_cases = vec![grid.lines_near_box(v(500.0, 0.0), v(550.0, 5.0))];

    for lines in should_contain_line_cases {
        assert_eq!(lines, vec![line]);
    }

    for lines in should_not_contain_line_cases {
        assert_eq!(lines, Vec::<Line>::new());
    }
}

#[test]
fn correct_ordering() {
    let mut lines: Vec<Line> = vec![];
    let center = (7.0, 7.0);
    for x in -1..=1 {
        for y in -1..=1 {
            let x = x as f64;
            let y = y as f64;
            let diff = (x * DEFAULT_CELL_SIZE, y * DEFAULT_CELL_SIZE);
            lines.push(
                Line::builder()
                    .point_vec(v(center.0 + diff.0, center.1 + diff.1))
                    .point_vec(v(center.0 + diff.0 + 1.0, center.1 + diff.1 + 1.0))
                    .build(),
            );
        }
    }

    // some swaps, so that the lines are added out of order
    let mut lines_rand = lines.clone();
    lines_rand.swap(3, 8);
    lines_rand.swap(5, 0);
    lines_rand.swap(8, 5);
    lines_rand.swap(1, 6);
    // and a line that should not be in the output
    lines_rand.push(segment(100.0, 200.0, 200.0, 200.0));
    let grid = grid_of(lines_rand);

    let near = grid.lines_near(v(0.5, 0.5), 1);
    assert_eq!(near, lines);
}

#[test]
fn add_then_remove_restores_queries() {
    let line1 = segment(0.0, 0.0, 100.0, 0.0);
    let line2 = segment(3.0, -20.0, 60.0, 40.0);
    let extra = segment(-10.0, 30.0, 90.0, -30.0);
    let mut grid = grid_of(vec![line1, line2]);
    let near_before = grid.lines_near(v(20.0, 5.0), 1);
    let box_before = grid.lines_near_box(v(-40.0, -40.0), v(120.0, 60.0));
    let all_before = grid.all_lines().clone();

    grid.add_line(extra);
    assert_eq!(grid.all_lines(), &vec![line1, line2, extra]);
    assert_eq!(
        grid.lines_near_box(v(-40.0, -40.0), v(120.0, 60.0)),
        vec![extra, line2, line1]
    );
    assert!(grid.remove_line(&extra));

    assert_eq!(grid.lines_near(v(20.0, 5.0), 1), near_before);
    assert_eq!(grid.lines_near_box(v(-40.0, -40.0), v(120.0, 60.0)), box_before);
    assert_eq!(grid.all_lines(), &all_before);
}

#[test]
fn add_then_remove_of_an_equal_line_keeps_the_order() {
    let line1 = segment(0.0, 0.0, 10.0, 0.0);
    let line2 = segment(1.0, 1.0, 10.0, 1.0);
    let mut grid = grid_of(vec![line1, line2]);
    grid.add_line(line1);
    assert_eq!(grid.all_lines(), &vec![line1, line2, line1]);
    assert!(grid.remove_line(&line1));
    assert_eq!(grid.all_lines(), &vec![line1, line2]);
    assert_eq!(grid.lines_near(v(5.0, 0.5), 0), vec![line1, line2]);
}

#[test]
fn remove_of_a_missing_line_changes_nothing() {
    let line1 = segment(0.0, 0.0, 10.0, 0.0);
    let missing = segment(0.0, 0.0, 10.0, 1.0);
    let mut grid = grid_of(vec![line1]);
    assert!(!grid.remove_line(&missing));
    assert_eq!(grid.all_lines(), &vec![line1]);
    assert_eq!(grid.lines_near(v(5.0, 0.0), 1), vec![line1]);
}

#[test]
fn box_query_corner_symmetry() {
    let a = segment(0.0, 0.0, 100.0, 30.0);
    let b = segment(50.0, -60.0, 50.0, 60.0);
    let c = segment(-20.0, 10.0, 10.0, -35.0);
    let grid = grid_of(vec![a, b, c]);
    let p1 = v(-25.0, 48.0);
    let p2 = v(77.0, -31.0);
    let forward = grid.lines_near_box(p1, p2);
    let backward = grid.lines_near_box(p2, p1);
    assert_eq!(forward, backward);
    assert_eq!(forward, vec![c, a, b]);
    assert_eq!(
        grid.lines_near_box(v(-25.0, -31.0), v(77.0, 48.0)),
        grid.lines_near_box(v(77.0, 48.0), v(-25.0, -31.0))
    );
}

#[test]
fn a_line_in_several_cells_is_listed_once() {
    let long = segment(-50.0, 3.0, 50.0, 3.0);
    let short = segment(1.0, 1.0, 2.0, 2.0);
    let grid = grid_of(vec![short, long]);
    // the long line is met first, in the column to the left
    assert_eq!(grid.lines_near(v(5.0, 5.0), 1), vec![long, short]);
    assert_eq!(grid.lines_near(v(5.0, 5.0), 0), vec![short, long]);
}

#[test]
fn lines_equal_but_for_the_ratio_are_one_line() {
    let plain = segment(0.0, 0.0, 10.0, 0.0);
    let other_ratio = Line::builder()
        .extension_ratio(0.5f64.to_bits())
        .point(0.0f64.to_bits(), 0.0f64.to_bits())
        .point(10.0f64.to_bits(), 0.0f64.to_bits())
        .build();
    assert_eq!(plain, other_ratio);
    let mut grid = grid_of(vec![plain, other_ratio]);
    assert_eq!(grid.lines_near(v(1.0, 0.0), 1).len(), 1);
    assert!(grid.remove_line(&plain));
    assert_eq!(grid.all_lines().len(), 1);
    assert_eq!(grid.all_lines()[0].extension_ratio, 0.25f64.to_bits());
}

#[test]
fn diagonal_cells_column_by_column() {
    // from cell (0, 0) to cell (2, 1)
    let line = segment(1.0, 1.0, 40.0, 20.0);
    let grid = grid_of(vec![line]);
    let has = |cx: i32, cy: i32| line.is_in_cell(DEFAULT_CELL_SIZE.to_bits(), cx, cy);
    assert_eq!(line.column_range(DEFAULT_CELL_SIZE.to_bits()), (0, 2));
    assert!(has(0, 0));
    assert!(has(1, 0));
    assert!(has(1, 1));
    assert!(has(2, 1));
    assert!(!has(0, 1));
    assert!(!has(2, 0));
    assert!(!has(3, 1));
    assert!(!has(-1, 0));
    assert_eq!(grid.lines_near(v(35.0, 5.0), 0), Vec::<Line>::new());
    assert_eq!(grid.lines_near(v(35.0, 15.0), 0), vec![line]);
}
