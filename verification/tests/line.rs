use lr_physics::line::{Line, LinePoint, LineType};
use lr_physics::vector::Vector2D;

fn v(x: f64, y: f64) -> Vector2D {
    Vector2D(x.to_bits(), y.to_bits())
}

fn num(bits: u64) -> f64 {
    f64::from_bits(bits)
}

fn b(x: f64) -> u64 {
    x.to_bits()
}

#[test]
fn default_line() {
    let line = Line::builder().build();
    assert_eq!(line.id, 0);
    assert_eq!(line.ends.0, LinePoint { location: v(0.0, 0.0), extended: false });
    assert_eq!(line.ends.1, LinePoint { location: v(0.0, 0.0), extended: false });
    assert_eq!(line.line_type, LineType::Normal);
    assert!(!line.flipped);
    assert_eq!(num(line.extension_ratio), 0.25);
    assert_eq!(line, Line::default());
    assert_eq!(LineType::default(), LineType::Normal);
    assert_eq!(LinePoint::default(), LinePoint { location: v(0.0, 0.0), extended: false });
}

#[test]
fn builder_sets_each_field() {
    let line = Line::builder()
        .id(7)
        .line_type(LineType::Accelerate { amount: 2 })
        .flipped(true)
        .extension_ratio(b(0.5))
        .point(b(1.0), b(2.0))
        .extended(true)
        .point_vec(v(3.0, 4.0))
        .build();
    assert_eq!(line.id, 7);
    assert_eq!(line.line_type, LineType::Accelerate { amount: 2 });
    assert!(line.flipped);
    assert_eq!(num(line.extension_ratio), 0.5);
    assert_eq!(line.ends.0, LinePoint { location: v(1.0, 2.0), extended: true });
    assert_eq!(line.ends.1, LinePoint { location: v(3.0, 4.0), extended: false });
}

#[test]
fn builder_extended_marks_the_latest_end() {
    let line = Line::builder()
        .point(b(1.0), b(2.0))
        .point(b(3.0), b(4.0))
        .extended(true)
        .build();
    assert!(!line.ends.0.extended);
    assert!(line.ends.1.extended);
    let both = Line::builder()
        .point(b(1.0), b(2.0))
        .extended(true)
        .point(b(3.0), b(4.0))
        .extended(true)
        .extended(false)
        .build();
    assert!(both.ends.0.extended);
    assert!(!both.ends.1.extended);
}

#[test]
fn builder_third_point_moves_the_second_end() {
    let line = Line::builder()
        .point(b(1.0), b(2.0))
        .point(b(3.0), b(4.0))
        .point(b(5.0), b(6.0))
        .build();
    assert_eq!(line.ends.0.location, v(1.0, 2.0));
    assert_eq!(line.ends.1.location, v(5.0, 6.0));
}

#[test]
fn builder_tells_when_extended_may_be_called() {
    let fresh = Line::builder();
    assert!(!fresh.can_extend());
    let located = fresh.point(b(1.0), b(2.0));
    assert!(located.can_extend());
}

#[test]
fn equality_leaves_the_ratio_out() {
    let a = Line::builder().id(1).point(b(0.0), b(0.0)).point(b(1.0), b(0.0)).build();
    let same = Line::builder()
        .id(1)
        .extension_ratio(b(0.75))
        .point(b(0.0), b(0.0))
        .point(b(1.0), b(0.0))
        .build();
    assert_eq!(a, same);
    assert_ne!(a, Line::builder().id(2).point(b(0.0), b(0.0)).point(b(1.0), b(0.0)).build());
    assert_ne!(a, Line::builder().id(1).point(b(0.0), b(0.0)).point(b(1.0), b(0.5)).build());
    assert_ne!(
        a,
        Line::builder().id(1).flipped(true).point(b(0.0), b(0.0)).point(b(1.0), b(0.0)).build()
    );
    assert_ne!(
        a,
        Line::builder()
            .id(1)
            .line_type(LineType::Scenery)
            .point(b(0.0), b(0.0))
            .point(b(1.0), b(0.0))
            .build()
    );
    assert_ne!(
        a,
        Line::builder()
            .id(1)
            .point(b(0.0), b(0.0))
            .extended(true)
            .point(b(1.0), b(0.0))
            .build()
    );
}

#[test]
fn vector_length_and_normal() {
    let line = Line::builder().point(b(1.0), b(5.0)).point(b(4.0), b(9.0)).build();
    assert_eq!(line.as_vector2d(), v(3.0, 4.0));
    assert_eq!(num(line.length_squared()), 25.0);
    // the normal of a line that runs to the right points up, to smaller y
    let flat = Line::builder().point(b(0.0), b(5.0)).point(b(30.0), b(5.0)).build();
    assert_eq!(flat.perpendicular(), v(0.0, -1.0));
    let flipped = Line::builder()
        .flipped(true)
        .point(b(0.0), b(5.0))
        .point(b(30.0), b(5.0))
        .build();
    assert_eq!(flipped.perpendicular(), v(-0.0, 1.0));
    let upright = Line::builder()
        .flipped(true)
        .point(b(-7.0), b(0.0))
        .point(b(-7.0), b(10.0))
        .build();
    assert_eq!(upright.perpendicular(), v(-1.0, 0.0));
    assert_eq!(line.perpendicular(), v(4.0 / 5.0, -3.0 / 5.0));
}

#[test]
fn hitbox_extensions_by_end() {
    let plain = Line::builder().point(b(0.0), b(5.0)).point(b(30.0), b(5.0)).build();
    assert_eq!(plain.hitbox_extensions(), (b(0.0), b(0.0)));
    let first = Line::builder()
        .point(b(0.0), b(5.0))
        .extended(true)
        .point(b(30.0), b(5.0))
        .build();
    assert_eq!(first.hitbox_extensions(), (b(7.5), b(0.0)));
    let second = Line::builder()
        .point(b(0.0), b(5.0))
        .point(b(30.0), b(5.0))
        .extended(true)
        .build();
    assert_eq!(second.hitbox_extensions(), (b(0.0), b(7.5)));
}

#[test]
fn hitbox_extensions_are_held_to_ten() {
    let long = Line::builder()
        .point(b(0.0), b(0.0))
        .extended(true)
        .point(b(100.0), b(0.0))
        .extended(true)
        .build();
    assert_eq!(long.hitbox_extensions(), (b(10.0), b(10.0)));
    let exactly = Line::builder()
        .point(b(0.0), b(0.0))
        .extended(true)
        .point(b(40.0), b(0.0))
        .extended(true)
        .build();
    assert_eq!(exactly.hitbox_extensions(), (b(10.0), b(10.0)));
    let negative_ratio = Line::builder()
        .extension_ratio(b(-0.25))
        .point(b(0.0), b(0.0))
        .extended(true)
        .point(b(8.0), b(0.0))
        .extended(true)
        .build();
    assert_eq!(negative_ratio.hitbox_extensions(), (b(0.0), b(0.0)));
    let half = Line::builder()
        .extension_ratio(b(0.5))
        .point(b(0.0), b(0.0))
        .extended(true)
        .point(b(3.0), b(4.0))
        .build();
    assert_eq!(half.hitbox_extensions(), (b(2.5), b(0.0)));
}

#[test]
fn lines_are_ordered_by_identifier_alone() {
    let low = Line::builder().id(1).point(b(5.0), b(5.0)).point(b(9.0), b(9.0)).build();
    let high = Line::builder().id(2).point(b(0.0), b(0.0)).point(b(1.0), b(0.0)).build();
    let twin = Line::builder().id(1).point(b(0.0), b(0.0)).point(b(1.0), b(0.0)).build();
    assert!(low < high);
    assert!(high > low);
    assert!(!(low < twin) && !(twin < low));
    assert_eq!(low.partial_cmp(&twin), Some(std::cmp::Ordering::Equal));
    assert_ne!(low, twin);
}
