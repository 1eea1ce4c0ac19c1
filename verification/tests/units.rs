use railworld::units::{
    abs_saturating, add_saturating, distance, floor_div_i128, half, is_coord_in_world, isqrt,
    mul_div, quotient_i64, saturate_i128, sub_saturating, trunc_div_i128, Point2, Point3,
    WORLD_LIMIT,
};

#[test]
fn mul_div_rounds_toward_zero() {
    assert_eq!(mul_div(7, 3, 2), 10);
    assert_eq!(mul_div(-7, 3, 2), -10);
    assert_eq!(mul_div(50_000, 939_692, 1_000_000), 46_984);
    assert_eq!(mul_div(50_000, -939_692, 1_000_000), -46_984);
    assert_eq!(mul_div(0, 5, 9), 0);
}

#[test]
fn mul_div_saturates() {
    assert_eq!(mul_div(i64::MAX, 2, 1), i64::MAX);
    assert_eq!(mul_div(i64::MIN, 2, 1), i64::MIN);
    assert_eq!(mul_div(i64::MAX, i64::MAX, i64::MAX), i64::MAX);
}

#[test]
fn floor_and_truncating_division_differ_below_zero() {
    assert_eq!(floor_div_i128(-7, 2), -4);
    assert_eq!(trunc_div_i128(-7, 2), -3);
    assert_eq!(floor_div_i128(7, 2), 3);
    assert_eq!(trunc_div_i128(7, 2), 3);
    assert_eq!(floor_div_i128(-8, 2), -4);
    assert_eq!(floor_div_i128(0, 5), 0);
}

#[test]
fn saturating_helpers() {
    assert_eq!(saturate_i128(i64::MAX as i128 + 1), i64::MAX);
    assert_eq!(saturate_i128(i64::MIN as i128 - 1), i64::MIN);
    assert_eq!(saturate_i128(-5), -5);
    assert_eq!(add_saturating(i64::MAX, 1), i64::MAX);
    assert_eq!(add_saturating(2, 3), 5);
    assert_eq!(sub_saturating(i64::MIN, 1), i64::MIN);
    assert_eq!(sub_saturating(2, 3), -1);
    assert_eq!(abs_saturating(i64::MIN), i64::MAX);
    assert_eq!(abs_saturating(-4), 4);
    assert_eq!(half(-5), -2);
    assert_eq!(half(5), 2);
    assert_eq!(quotient_i64(-10, 4), -2);
    assert_eq!(quotient_i64(1i128 << 100, 1), i64::MAX);
}

#[test]
fn isqrt_is_the_rounded_down_root() {
    assert_eq!(isqrt(0), 0);
    assert_eq!(isqrt(1), 1);
    assert_eq!(isqrt(3), 1);
    assert_eq!(isqrt(4), 2);
    assert_eq!(isqrt(24), 4);
    assert_eq!(isqrt(25), 5);
    assert_eq!(isqrt(1_000_000_000_000), 1_000_000);
    assert_eq!(isqrt(999_999_999_999), 999_999);
    assert_eq!(isqrt(u128::MAX), u64::MAX);
}

#[test]
fn distance_between_world_points() {
    let a = Point3 { x: 0, y: 0, z: 0 };
    let b = Point3 { x: 3000, y: 4000, z: 0 };
    assert_eq!(distance(a, b), 5000);
    assert_eq!(distance(b, a), 5000);
    assert_eq!(distance(a, a), 0);
    let c = Point3 { x: 1, y: 1, z: 1 };
    assert_eq!(distance(a, c), 1);
    let far = Point3 { x: WORLD_LIMIT, y: WORLD_LIMIT, z: WORLD_LIMIT };
    let near = Point3 { x: -WORLD_LIMIT, y: -WORLD_LIMIT, z: -WORLD_LIMIT };
    assert_eq!(distance(far, near), 3_464_101_615_137);
}

#[test]
fn world_bounds() {
    assert!(is_coord_in_world(WORLD_LIMIT));
    assert!(is_coord_in_world(-WORLD_LIMIT));
    assert!(!is_coord_in_world(WORLD_LIMIT + 1));
    assert!(!is_coord_in_world(-WORLD_LIMIT - 1));
    assert!(Point2 { x: 0, z: WORLD_LIMIT }.is_in_world());
    assert!(!Point2 { x: 0, z: WORLD_LIMIT + 1 }.is_in_world());
    assert!(Point3 { x: 1, y: 2, z: 3 }.is_in_world());
    assert!(!Point3 { x: 1, y: i64::MIN, z: 3 }.is_in_world());
    assert_eq!(Point3 { x: 1, y: 2, z: 3 }.to_ground(), Point2 { x: 1, z: 3 });
}
