use lr_physics::ieee::{
    clamp, compare, count, difference, floor, is_zero, lt, neg, root, scaled_up, total_lt, whole,
    FloatOrder,
};
use lr_physics::vector::Vector2D;

fn v(x: f64, y: f64) -> Vector2D {
    Vector2D(x.to_bits(), y.to_bits())
}

fn num(bits: u64) -> f64 {
    f64::from_bits(bits)
}

#[test]
fn sum_and_difference_are_rounded_as_ieee_rounds() {
    let a = v(0.1, 1.0e16);
    let b = v(0.2, 1.0);
    let sum = a.plus(b);
    assert_eq!(num(sum.0), 0.1 + 0.2);
    assert_eq!(num(sum.1), 1.0e16 + 1.0);
    let diff = a.minus(b);
    assert_eq!(num(diff.0), 0.1 - 0.2);
    assert_eq!(num(diff.1), 1.0e16 - 1.0);
    assert_eq!(num(difference(3.5f64.to_bits(), 1.25f64.to_bits())), 2.25);
}

#[test]
fn product_quotient_root() {
    let a = v(1.1, -3.0);
    assert_eq!(num(a.scaled(1.1f64.to_bits()).0), 1.1 * 1.1);
    assert_eq!(num(a.scaled(1.1f64.to_bits()).1), -3.0 * 1.1);
    assert_eq!(num(a.divided(3.0f64.to_bits()).0), 1.1 / 3.0);
    assert_eq!(num(a.divided(3.0f64.to_bits()).1), -1.0);
    assert_eq!(num(v(3.0, 4.0).length()), 5.0);
    assert_eq!(num(v(1.0, 1.0).length()), 2.0f64.sqrt());
    assert_eq!(num(v(3.0, 4.0).length_squared()), 25.0);
    assert_eq!(num(v(1.0, 2.0).dot_product(v(3.0, 4.0))), 11.0);
    assert_eq!(num(v(1.0, 2.0).cross_product(v(3.0, 4.0))), -2.0);
    assert_eq!(num(v(1.0, 2.0).distance_squared(v(4.0, 6.0))), 25.0);
}

#[test]
fn division_by_zero_and_nan() {
    assert_eq!(num(v(1.0, -1.0).divided(0.0f64.to_bits()).0), f64::INFINITY);
    assert_eq!(num(v(1.0, -1.0).divided(0.0f64.to_bits()).1), f64::NEG_INFINITY);
    assert!(num(v(0.0, 0.0).normalize().0).is_nan());
}

#[test]
fn rotations_and_normalize() {
    assert_eq!(v(30.0, 0.0).rotate90_left(), v(0.0, -30.0));
    assert_eq!(v(0.0, 10.0).rotate90_right(), v(-10.0, 0.0));
    assert_eq!(v(30.0, 0.0).rotate90_left().normalize(), v(0.0, -1.0));
    assert_eq!(v(3.0, 4.0).normalize(), v(3.0 / 5.0, 4.0 / 5.0));
    assert_eq!(v(1.5, -2.0).negated(), v(-1.5, 2.0));
}

#[test]
fn neg_flips_the_sign_bit() {
    assert_eq!(num(neg(2.5f64.to_bits())), -2.5);
    assert_eq!(num(neg((-2.5f64).to_bits())), 2.5);
    assert_eq!(neg(0.0f64.to_bits()), (-0.0f64).to_bits());
    assert_eq!(neg(f64::INFINITY.to_bits()), f64::NEG_INFINITY.to_bits());
}

#[test]
fn compare_follows_ieee() {
    let order = |a: f64, b: f64| compare(a.to_bits(), b.to_bits());
    assert_eq!(order(1.0, 2.0), FloatOrder::Less);
    assert_eq!(order(2.0, 1.0), FloatOrder::Greater);
    assert_eq!(order(-1.0, -2.0), FloatOrder::Greater);
    assert_eq!(order(-2.0, -1.0), FloatOrder::Less);
    assert_eq!(order(-1.0, 1.0), FloatOrder::Less);
    assert_eq!(order(1.0, -1.0), FloatOrder::Greater);
    assert_eq!(order(0.0, -0.0), FloatOrder::Equal);
    assert_eq!(order(-0.0, 0.0), FloatOrder::Equal);
    assert_eq!(order(3.25, 3.25), FloatOrder::Equal);
    assert_eq!(order(f64::NAN, 1.0), FloatOrder::Unordered);
    assert_eq!(order(1.0, f64::NAN), FloatOrder::Unordered);
    assert_eq!(order(f64::NEG_INFINITY, f64::INFINITY), FloatOrder::Less);
    assert_eq!(order(f64::MAX, f64::INFINITY), FloatOrder::Less);
    assert_eq!(order(-5e-324, 0.0), FloatOrder::Less);
    assert!(lt(1.0f64.to_bits(), 2.0f64.to_bits()));
    assert!(!lt(2.0f64.to_bits(), 2.0f64.to_bits()));
    assert!(!lt(f64::NAN.to_bits(), 2.0f64.to_bits()));
}

#[test]
fn total_order_matches_total_cmp() {
    let values = [
        -f64::NAN,
        f64::NEG_INFINITY,
        -3.5,
        -5e-324,
        -0.0,
        0.0,
        5e-324,
        1.0,
        f64::INFINITY,
        f64::NAN,
    ];
    for a in values {
        for b in values {
            assert_eq!(total_lt(a.to_bits(), b.to_bits()), a.total_cmp(&b).is_lt());
        }
    }
}

#[test]
fn clamp_and_zero() {
    let c = |a: f64| num(clamp(a.to_bits(), 0.0f64.to_bits(), 10.0f64.to_bits()));
    assert_eq!(c(-1.0), 0.0);
    assert_eq!(c(3.0), 3.0);
    assert_eq!(c(12.0), 10.0);
    assert!(c(f64::NAN).is_nan());
    assert!(is_zero(0.0f64.to_bits()));
    assert!(is_zero((-0.0f64).to_bits()));
    assert!(!is_zero(5e-324f64.to_bits()));
}

#[test]
fn floor_is_the_floor_held_to_i32() {
    let values = [
        0.0,
        -0.0,
        0.25,
        -0.25,
        0.9999999999999999,
        -0.9999999999999999,
        1.0,
        -1.0,
        1.5,
        -1.5,
        2.0,
        -2.0,
        7.142857142857143,
        -7.142857142857143,
        3.2232142857142856,
        1000000.0,
        -1000000.0,
        1048576.5,
        -1048576.5,
        2147483646.5,
        2147483647.0,
        2147483647.5,
        2147483648.0,
        -2147483647.5,
        -2147483648.0,
        -2147483648.5,
        -2147483649.0,
        4294967296.0,
        1.0e300,
        -1.0e300,
        5e-324,
        -5e-324,
        2.2250738585072014e-308,
        -2.2250738585072014e-308,
        f64::INFINITY,
        f64::NEG_INFINITY,
        f64::NAN,
        -f64::NAN,
    ];
    for x in values {
        assert_eq!(floor(x.to_bits()), x.floor() as i32, "floor of {}", x);
    }
    assert_eq!(floor(1.5f64.to_bits()), 1);
    assert_eq!(floor((-1.5f64).to_bits()), -2);
    assert_eq!(floor((-2.0f64).to_bits()), -2);
    assert_eq!(floor((-1.0e-9f64).to_bits()), -1);
    assert_eq!(floor(1.0e10f64.to_bits()), i32::MAX);
    assert_eq!(floor((-1.0e10f64).to_bits()), i32::MIN);
    assert_eq!(floor(f64::NAN.to_bits()), 0);
}

#[test]
fn floor_of_many_numbers() {
    // a fixed walk through numbers of many sizes and both signs
    let mut x: f64 = 0.37;
    for step in 0..2000 {
        let value: f64 = if step % 2 == 0 { x } else { -x };
        assert_eq!(floor(value.to_bits()), value.floor() as i32, "floor of {}", value);
        let whole_part = value.floor();
        assert_eq!(floor(whole_part.to_bits()), whole_part as i32);
        x = x * 1.0123 + 0.001;
    }
}

#[test]
fn whole_is_the_integer_as_a_number() {
    let values = [
        0,
        1,
        -1,
        2,
        3,
        -3,
        7,
        10,
        255,
        256,
        -1000,
        65535,
        123456789,
        -123456789,
        i32::MAX,
        i32::MIN,
        i32::MIN + 1,
    ];
    for i in values {
        assert_eq!(whole(i), (i as f64).to_bits(), "whole of {}", i);
    }
    assert_eq!(f64::from_bits(whole(-12)), -12.0);
    assert_eq!(whole(0), 0.0f64.to_bits());
}

#[test]
fn count_is_exact_below_two_to_the_53() {
    let values = [0u64, 1, 2, 3, 1000, 4294967295, 4294967296, (1 << 53) - 1, 1 << 53, 1 << 63];
    for n in values {
        assert_eq!(count(n), (n as f64).to_bits(), "count of {}", n);
    }
    assert_eq!(f64::from_bits(count(12)), 12.0);
}

#[test]
fn root_is_the_square_root() {
    let values = [
        0.0,
        -0.0,
        1.0,
        2.0,
        4.0,
        100.0,
        0.25,
        1.0e-300,
        1.0e300,
        2.2250738585072014e-308,
        f64::MAX,
        f64::INFINITY,
    ];
    for x in values {
        assert_eq!(root(x.to_bits()), x.sqrt().to_bits(), "root of {}", x);
    }
    assert!(f64::from_bits(root((-1.0f64).to_bits())).is_nan());
    assert!(f64::from_bits(root((-5e-324f64).to_bits())).is_nan());
    assert!(f64::from_bits(root(f64::NAN.to_bits())).is_nan());
    assert!(f64::from_bits(root(f64::NEG_INFINITY.to_bits())).is_nan());
}

#[test]
fn root_of_subnormal_numbers() {
    let patterns = [
        1u64,
        2,
        3,
        0x3ff,
        0x400,
        0x401,
        0x7ff,
        0x800,
        0x1f_ffff,
        0x20_0000,
        0x7fff_ffff,
        0x8000_0000,
        0x8000_0001,
        0xdead_beef,
        0xffff_ffff,
        0x1_0000_0000,
        0x1234_5678_9abc,
        0x7_ffff_ffff_ffff,
        0x8_0000_0000_0000,
        0xf_ffff_ffff_ffff,
    ];
    let two_pow_104 = f64::from_bits((1023u64 + 104) << 52);
    for a in patterns {
        let x = f64::from_bits(a);
        assert!(x > 0.0 && x < f64::MIN_POSITIVE);
        assert_eq!(scaled_up(a), (x * two_pow_104).to_bits(), "scaled {:#x}", a);
        assert_eq!(root(a), x.sqrt().to_bits(), "root of {:#x}", a);
    }
    // the smallest normal number is not scaled
    assert_eq!(root(0x10_0000_0000_0000), f64::MIN_POSITIVE.sqrt().to_bits());
}

#[test]
fn root_of_many_subnormal_numbers() {
    let mut a: u64 = 1;
    while a < 0x10_0000_0000_0000 {
        let x = f64::from_bits(a);
        assert_eq!(root(a), x.sqrt().to_bits(), "root of {:#x}", a);
        assert_eq!(root(a - 1 + (a & 1)), f64::from_bits(a - 1 + (a & 1)).sqrt().to_bits());
        a = a * 3 + 1;
    }
}
