use lr_physics::line::{Line, LineType};
use lr_physics::physics::advance_frame::{duplicate_all, frame_after};
use lr_physics::rider::{Entity, PointIndex};
use lr_physics::track::{Track, TrackMeta};
use lr_physics::vector::Vector2D;

fn v(x: f64, y: f64) -> Vector2D {
    Vector2D(x.to_bits(), y.to_bits())
}

fn num(bits: u64) -> f64 {
    f64::from_bits(bits)
}

fn b(x: f64) -> u64 {
    x.to_bits()
}

fn xy(p: Vector2D) -> (f64, f64) {
    (num(p.0), num(p.1))
}

/// The mean place of the points of an entity.
fn average(entity: &Entity) -> (f64, f64) {
    let mut result = (0.0, 0.0);
    let mut count = 0;

    for point in entity.points.iter().flatten() {
        result.0 += num(point.location.0);
        result.1 += num(point.location.1);
        count += 1;
    }

    if count > 0 {
        result.0 /= count as f64;
        result.1 /= count as f64;
    }

    result
}

#[test]
fn zero_lines() {
    let mut engine = Track::new(vec![Entity::default_boshsled()], vec![]);
    let entities0 = engine.entity_positions_at(0);
    let entities1 = engine.entity_positions_at(1);
    let rider0 = entities0.get(0).expect("Rider frame 0 should exist");
    let rider1 = entities1.get(0).expect("Rider frame 1 should exist");
    let avg_position0 = average(rider0);
    let avg_position1 = average(rider1);
    assert!(avg_position1.0 > avg_position0.0, "Rider should have increased x");
    assert!(avg_position1.1 > avg_position0.1, "Rider should have increased y");
}

#[test]
fn one_line() {
    let y = 5.0;
    let line = Line::builder()
        .id(0)
        .line_type(LineType::Normal)
        .point(b(0.0), b(5.0))
        .point(b(30.0), b(5.0))
        .build();
    let frame = 11;

    let mut engine0 = Track::new(vec![Entity::default_boshsled()], vec![]);
    let mut engine1 = engine0.clone();
    engine1.add_line(line);

    let entities0 = engine0.entity_positions_at(frame);
    let entities1 = engine1.entity_positions_at(frame);

    let rider_falling = entities0.get(0).expect("Rider falling should exist");
    let rider_colliding = entities1.get(0).expect("Rider colliding should exist");

    let rider_falling_points = average(rider_falling);
    let rider_colliding_points = average(rider_colliding);

    assert!(
        rider_colliding_points.1 < rider_falling_points.1,
        "Rider should have collided with line"
    );
    assert!(rider_colliding_points.1 < y - 0.01, "Rider should not have been flattened");
}

#[test]
fn two_lines() {
    let y = 5.0;
    let line1 = Line::builder()
        .id(0)
        .line_type(LineType::Normal)
        .point(b(0.0), b(5.0))
        .point(b(30.0), b(5.0))
        .build();
    let line2 = Line::builder()
        .id(1)
        .line_type(LineType::Normal)
        .point(b(-7.0), b(0.0))
        .point(b(-7.0), b(10.0))
        .flipped(true)
        .build();
    let frame = 15;

    let mut engine = Track::new(vec![Entity::default_boshsled()], vec![line1, line2]);
    let entities = engine.entity_positions_at(frame);
    let rider = entities.get(0).expect("Rider should exist");
    let sled = entities.get(1).expect("Sled should exist as separate entity");
    let shoulder = rider.point_at(PointIndex::BoshShoulder);
    let butt = rider.point_at(PointIndex::BoshButt);
    let nose = sled.point_at(PointIndex::SledNose);

    println!("Shoulder ({}, {})", num(shoulder.location.0), num(shoulder.location.1));
    println!("Nose ({}, {})", num(shoulder.location.0), num(shoulder.location.1));
    println!("Butt ({}, {})", num(butt.location.0), num(butt.location.1));
    assert!(
        num(shoulder.location.0) > 0.0 && num(nose.location.0) < 0.0,
        "Rider should have been separated from sled"
    );
    assert!(num(shoulder.location.1) < y - 0.01, "Rider should not have been flattened");
    assert!(
        num(butt.location.1) > y - 0.01
            && num(butt.location.0) > 0.0
            && num(shoulder.location.0) > num(butt.location.0),
        "Rider should be sitting and leaning forward"
    );
}

#[test]
fn scenery_line() {
    let line = Line::builder()
        .id(0)
        .line_type(LineType::Scenery)
        .point(b(0.0), b(5.0))
        .point(b(30.0), b(5.0))
        .build();
    let frame = 11;

    let mut engine0 = Track::new(vec![Entity::default_boshsled()], vec![]);
    let mut engine1 = engine0.clone();
    engine1.add_line(line);

    let entities0 = engine0.entity_positions_at(frame);
    let entities1 = engine1.entity_positions_at(frame);

    let rider_falling = entities0.get(0).expect("Rider falling should exist");
    let rider_colliding = entities1.get(0).expect("Rider colliding should exist");

    let rider_falling_points = average(rider_falling);
    let rider_colliding_points = average(rider_colliding);

    assert!(
        rider_colliding_points.1 == rider_falling_points.1,
        "Rider should not have collided with line"
    );
}

#[test]
fn free_fall_positions() {
    let mut engine = Track::new(vec![Entity::default_boshsled()], vec![]);
    let frame1 = engine.entity_positions_at(1);
    assert_eq!(frame1.len(), 1);
    assert_eq!(
        xy(frame1[0].point_at(PointIndex::SledPeg).location),
        (0.4009999999999999, 0.17500000000000066)
    );
    assert_eq!(
        xy(frame1[0].point_at(PointIndex::BoshShoulder).location),
        (5.401, -5.324999999999999)
    );
    let frame11 = engine.entity_positions_at(11);
    assert_eq!(average(&frame11[0]), (13.01600000000003, 12.000000000000005));
    let mut previous = average(&engine.entity_positions_at(0)[0]);
    for frame in 1..=20 {
        let here = average(&engine.entity_positions_at(frame)[0]);
        assert!(here.0 > previous.0 && here.1 > previous.1);
        previous = here;
    }
}

#[test]
fn collision_positions() {
    let line = Line::builder().point(b(0.0), b(5.0)).point(b(30.0), b(5.0)).build();
    let mut engine = Track::new(vec![Entity::default_boshsled()], vec![line]);
    let frame11 = engine.entity_positions_at(11);
    assert_eq!(frame11.len(), 1);
    assert_eq!(average(&frame11[0]), (13.016000000000014, 2.1407813629214325));
}

#[test]
fn break_positions() {
    let line1 = Line::builder().id(0).point(b(0.0), b(5.0)).point(b(30.0), b(5.0)).build();
    let line2 = Line::builder()
        .id(1)
        .point(b(-7.0), b(0.0))
        .point(b(-7.0), b(10.0))
        .flipped(true)
        .build();
    let mut engine = Track::new(vec![Entity::default_boshsled()], vec![line1, line2]);
    let frame1 = engine.entity_positions_at(1);
    assert_eq!(frame1.len(), 2);
    assert_eq!(
        xy(frame1[0].point_at(PointIndex::BoshShoulder).location),
        (5.402915609604277, -5.358586162749816)
    );
    assert_eq!(
        xy(frame1[0].point_at(PointIndex::BoshButt).location),
        (5.330641699231614, 0.14123501156427665)
    );
    assert_eq!(
        xy(frame1[1].point_at(PointIndex::SledNose).location),
        (11.730145617239947, 5.043493607314351)
    );
    let frame15 = engine.entity_positions_at(15);
    assert_eq!(frame15.len(), 2);
    assert_eq!(
        xy(frame15[0].point_at(PointIndex::BoshShoulder).location),
        (12.610189046127624, 0.6364344290488685)
    );
    assert_eq!(
        xy(frame15[0].point_at(PointIndex::BoshButt).location),
        (9.362335641079602, 5.074476228606045)
    );
    assert_eq!(
        xy(frame15[1].point_at(PointIndex::SledNose).location),
        (-34.10208473630381, 17.37691993045108)
    );
    assert_eq!(frame15[0].bones.len(), 7);
    assert_eq!(frame15[1].bones.len(), 6);
}

#[test]
fn frames_are_the_same_in_any_order_of_asking() {
    let line = Line::builder().point(b(0.0), b(5.0)).point(b(30.0), b(5.0)).build();
    let mut forward = Track::new(vec![Entity::default_boshsled()], vec![line]);
    let mut backward = forward.clone();
    let f3 = forward.entity_positions_at(3);
    let f7 = forward.entity_positions_at(7);
    let b7 = backward.entity_positions_at(7);
    let b3 = backward.entity_positions_at(3);
    assert_eq!(f3, b3);
    assert_eq!(f7, b7);
    assert_eq!(forward.entity_positions_at(3), f3);
    assert_ne!(f3, f7);
    assert_eq!(forward.entity_positions_at(0), vec![Entity::default_boshsled()]);
}

#[test]
fn frame_after_is_one_frame() {
    let line = Line::builder().point(b(0.0), b(5.0)).point(b(30.0), b(5.0)).build();
    let mut track = Track::new(vec![Entity::default_boshsled()], vec![line]);
    let frame4 = track.entity_positions_at(4);
    let frame5 = track.entity_positions_at(5);
    let fresh = Track::new(vec![], vec![line]);
    assert_eq!(frame_after(&frame4, &fresh), frame5);
    assert_eq!(frame_after(&vec![], &fresh), vec![]);
    assert_eq!(duplicate_all(&frame4), frame4);
}

#[test]
fn an_edit_of_the_lines_forgets_the_later_frames() {
    let line = Line::builder().point(b(0.0), b(5.0)).point(b(30.0), b(5.0)).build();
    let mut track = Track::new(vec![Entity::default_boshsled()], vec![]);
    let falling = track.entity_positions_at(11);
    track.add_line(line);
    assert_eq!(track.all_lines(), &vec![line]);
    let held = track.entity_positions_at(11);
    assert_ne!(held, falling);
    assert_eq!(track.entity_positions_at(0), vec![Entity::default_boshsled()]);
    assert!(track.remove_line(&line));
    assert_eq!(track.all_lines(), &Vec::<Line>::new());
    assert_eq!(track.entity_positions_at(11), falling);
    assert!(!track.remove_line(&line));
    assert_eq!(track.entity_positions_at(11), falling);
}

#[test]
fn create_and_remove_entity() {
    let mut track = Track::new(vec![Entity::default_boshsled()], vec![]);
    let one = track.entity_positions_at(2);
    assert_eq!(one.len(), 1);
    let mut second = Entity::default_boshsled();
    second.move_point(PointIndex::SledNose, v(15.0, 5.5));
    track.create_entity(second.clone());
    assert_eq!(
        track.entity_positions_at(0),
        vec![Entity::default_boshsled(), second.clone()]
    );
    let two = track.entity_positions_at(2);
    assert_eq!(two.len(), 2);
    assert_eq!(two[0], one[0]);

    assert_eq!(track.remove_entity(Entity::default_boshsled()), Some(()));
    assert_eq!(track.entity_positions_at(0), vec![second.clone()]);
    assert_eq!(track.entity_positions_at(2), vec![two[1].clone()]);
    assert_eq!(track.remove_entity(Entity::default_boshsled()), None);
    assert_eq!(track.entity_positions_at(0), vec![second.clone()]);
    assert_eq!(track.remove_entity(second), Some(()));
    assert_eq!(track.entity_positions_at(3), vec![]);
}

#[test]
fn a_failed_removal_forgets_the_later_frames_too() {
    let rider = Entity::default_boshsled();
    let mut other = Entity::default_boshsled();
    other.move_point(PointIndex::SledNose, v(15.0, 5.5));
    let mut track = Track::new(vec![rider.clone()], vec![]);
    assert_eq!(track.cached_len(), 1);
    let frame5 = track.entity_positions_at(5);
    assert_eq!(track.cached_len(), 6);
    assert_eq!(track.entity_positions_at(2).len(), 1);
    assert_eq!(track.cached_len(), 6);
    assert_eq!(track.remove_entity(other), None);
    assert_eq!(track.cached_len(), 1);
    assert_eq!(track.entity_positions_at(0), vec![rider.clone()]);
    assert_eq!(track.all_lines(), &Vec::<Line>::new());
    assert_eq!(track.entity_positions_at(5), frame5);
    assert_eq!(track.cached_len(), 6);
    assert_eq!(track.remove_entity(rider), Some(()));
    assert_eq!(track.cached_len(), 1);
    assert_eq!(track.entity_positions_at(0), vec![]);
}

#[test]
fn edits_forget_the_later_frames() {
    let line = Line::builder().point(b(0.0), b(5.0)).point(b(30.0), b(5.0)).build();
    let mut track = Track::new(vec![Entity::default_boshsled()], vec![]);
    track.entity_positions_at(3);
    assert_eq!(track.cached_len(), 4);
    track.add_line(line);
    assert_eq!(track.cached_len(), 1);
    track.entity_positions_at(3);
    assert!(track.remove_line(&line));
    assert_eq!(track.cached_len(), 1);
    track.entity_positions_at(3);
    assert!(!track.remove_line(&line));
    assert_eq!(track.cached_len(), 1);
    track.entity_positions_at(3);
    track.create_entity(Entity::default_boshsled());
    assert_eq!(track.cached_len(), 1);
}

#[test]
fn duplicate_is_a_track_of_its_own() {
    let line = Line::builder().point(b(0.0), b(5.0)).point(b(30.0), b(5.0)).build();
    let mut track = Track::new(vec![Entity::default_boshsled()], vec![line]);
    let frame4 = track.entity_positions_at(4);
    let mut copy = track.duplicate();
    assert_eq!(copy.cached_len(), 5);
    assert_eq!(copy.all_lines(), track.all_lines());
    assert_eq!(copy.lines_near(v(5.0, 5.0)), vec![line]);
    assert_eq!(copy.entity_positions_at(4), frame4);
    assert_eq!(copy.entity_positions_at(0), track.entity_positions_at(0));
    assert_eq!(f64::from_bits(copy.meta.cell_size), 14.0);
    assert!(copy.remove_line(&line));
    assert_eq!(track.all_lines(), &vec![line]);
    assert_eq!(track.cached_len(), 5);
    assert_eq!(track.entity_positions_at(4), frame4);
    assert_ne!(copy.entity_positions_at(11), track.entity_positions_at(11));
}

#[test]
fn scenery_among_other_lines_changes_nothing() {
    let floor = Line::builder().id(0).point(b(0.0), b(5.0)).point(b(30.0), b(5.0)).build();
    let wall = Line::builder()
        .id(1)
        .point(b(-7.0), b(0.0))
        .point(b(-7.0), b(10.0))
        .flipped(true)
        .build();
    let paint = |id: i64, x1: f64, y1: f64, x2: f64, y2: f64| {
        Line::builder()
            .id(id)
            .line_type(LineType::Scenery)
            .point(b(x1), b(y1))
            .point(b(x2), b(y2))
            .build()
    };
    let mut bare = Track::new(vec![Entity::default_boshsled()], vec![floor, wall]);
    let mut painted = Track::new(
        vec![Entity::default_boshsled()],
        vec![
            paint(2, 0.0, 4.0, 30.0, 4.0),
            floor,
            paint(3, -7.0, 0.0, -7.0, 10.0),
            paint(4, 0.0, 5.0, 30.0, 5.0),
            wall,
            paint(5, -20.0, -20.0, 40.0, 40.0),
        ],
    );
    for frame in [1, 2, 7, 15] {
        assert_eq!(painted.entity_positions_at(frame), bare.entity_positions_at(frame));
    }
}

#[test]
fn remove_entity_takes_the_first_of_equals() {
    let rider = Entity::default_boshsled();
    let mut other = Entity::default_boshsled();
    other.move_point(PointIndex::SledNose, v(15.0, 5.5));
    let mut track = Track::new(vec![other.clone(), rider.clone(), other.clone(), rider.clone()], vec![]);
    assert_eq!(track.remove_entity(rider.clone()), Some(()));
    assert_eq!(track.entity_positions_at(0), vec![other.clone(), other.clone(), rider.clone()]);
}

#[test]
fn track_settings() {
    let track = Track::new(vec![], vec![]);
    assert_eq!(num(track.meta.line_extension_ratio), 0.25);
    assert_eq!(num(track.meta.gravity_well_height), 10.0);
    assert_eq!(num(track.meta.cell_size), 14.0);
    assert!(!track.meta.remount);
    assert_eq!(num(track.gravity_well_height()), 10.0);
    assert_eq!(num(track.get_meta().cell_size), 14.0);
    assert_eq!(num(track.get_meta().line_extension_ratio), 0.25);
    assert!(!track.get_meta().remount);
    let meta = TrackMeta {
        line_extension_ratio: b(0.5),
        gravity_well_height: b(2.5),
        remount: true,
        cell_size: b(20.0),
    };
    let custom = Track::new_with_meta(vec![], vec![], meta);
    assert_eq!(num(custom.meta.gravity_well_height), 2.5);
    assert_eq!(num(custom.get_meta().gravity_well_height), 2.5);
    assert_eq!(num(custom.get_meta().cell_size), 20.0);
    assert!(custom.get_meta().remount);
    let line = custom.line_builder().point(b(0.0), b(0.0)).point(b(1.0), b(0.0)).build();
    assert_eq!(num(line.extension_ratio), 0.5);
    assert_eq!(num(track.line_builder().build().extension_ratio), 0.25);
    let default_meta = TrackMeta::default();
    assert_eq!(num(default_meta.cell_size), 14.0);
}

#[test]
fn the_well_height_of_the_track_decides_a_collision() {
    let line = Line::builder().point(b(0.0), b(5.0)).point(b(30.0), b(5.0)).build();
    let shallow = TrackMeta { gravity_well_height: b(0.1), ..TrackMeta::default() };
    let mut falling = Track::new(vec![Entity::default_boshsled()], vec![]);
    let mut through = Track::new_with_meta(vec![Entity::default_boshsled()], vec![line], shallow);
    // every point passes the thin well in one step and is never held
    assert_eq!(through.entity_positions_at(11), falling.entity_positions_at(11));
}

#[test]
fn the_cell_size_of_the_track_decides_what_is_near() {
    let far = Line::builder().point(b(100.0), b(0.0)).point(b(110.0), b(0.0)).build();
    let narrow = Track::new(vec![], vec![far]);
    assert_eq!(narrow.lines_near(v(0.0, 0.0)), Vec::<Line>::new());
    let wide_meta = TrackMeta { cell_size: b(60.0), ..TrackMeta::default() };
    let wide = Track::new_with_meta(vec![], vec![far], wide_meta);
    assert_eq!(wide.lines_near(v(0.0, 0.0)), vec![far]);
}

#[test]
fn track_line_queries() {
    let line1 = Line::builder().id(1).point(b(0.0), b(0.0)).point(b(100.0), b(0.0)).build();
    let line2 = Line::builder().id(2).point(b(0.0), b(1000.0)).point(b(100.0), b(1000.0)).build();
    let track = Track::new(vec![], vec![line1, line2]);
    assert_eq!(track.all_lines(), &vec![line1, line2]);
    assert_eq!(track.lines_near(v(50.0, 0.0)), vec![line1]);
    assert_eq!(track.lines_near(v(50.0, 990.0)), vec![line2]);
    assert_eq!(track.lines_near(v(50.0, 500.0)), Vec::<Line>::new());
    assert_eq!(track.lines_near_box(v(-5.0, -5.0), v(5.0, 1005.0)), vec![line1, line2]);
    assert_eq!(track.lines_near_box(v(5.0, 1005.0), v(-5.0, -5.0)), vec![line1, line2]);
}

#[test]
fn snap_point_to_the_nearest_end() {
    let line1 = Line::builder().id(1).point(b(0.0), b(0.0)).point(b(10.0), b(0.0)).build();
    let line2 = Line::builder().id(2).point(b(3.0), b(4.0)).point(b(20.0), b(4.0)).build();
    let track = Track::new(vec![], vec![line1, line2]);
    assert_eq!(track.snap_point(b(5.0), v(9.0, 1.0)), v(10.0, 0.0));
    assert_eq!(track.snap_point(b(5.0), v(2.0, 3.0)), v(3.0, 4.0));
    assert_eq!(track.snap_point(b(5.0), v(1.0, 1.0)), v(0.0, 0.0));
    // no end within reach
    assert_eq!(track.snap_point(b(1.0), v(6.0, 2.0)), v(6.0, 2.0));
    // an end at exactly the largest distance does not count
    assert_eq!(track.snap_point(b(5.0), v(-3.0, -4.0)), v(-3.0, -4.0));
    assert_eq!(track.snap_point(b(5.01), v(-3.0, -4.0)), v(0.0, 0.0));
    // no line near
    assert_eq!(track.snap_point(b(5000.0), v(500.0, 500.0)), v(500.0, 500.0));
}

#[test]
fn snap_point_keeps_the_first_of_two_equally_near() {
    let line1 = Line::builder().id(1).point(b(0.0), b(0.0)).point(b(4.0), b(0.0)).build();
    let line2 = Line::builder().id(2).point(b(4.0), b(3.0)).point(b(0.0), b(3.0)).build();
    let track = Track::new(vec![], vec![line1, line2]);
    // (2, 0) is as far from both ends of line1; its first end comes first
    assert_eq!(track.snap_point(b(5.0), v(2.0, 0.0)), v(0.0, 0.0));
    let reversed = Track::new(vec![], vec![line2, line1]);
    assert_eq!(reversed.snap_point(b(5.0), v(2.0, 3.0)), v(4.0, 3.0));
}
