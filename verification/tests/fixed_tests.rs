use particle_life::fixed::{cap_add, clamp64, isqrt64, mul_div_cap, COORD_LIMIT};

#[test]
fn isqrt_small_values() {
    assert_eq!(isqrt64(0), 0);
    assert_eq!(isqrt64(1), 1);
    assert_eq!(isqrt64(3), 1);
    assert_eq!(isqrt64(4), 2);
    assert_eq!(isqrt64(24), 4);
    assert_eq!(isqrt64(25), 5);
    assert_eq!(isqrt64(1_000_000), 1_000);
}

#[test]
fn isqrt_large_values() {
    assert_eq!(isqrt64(u64::MAX), 4_294_967_295);
    assert_eq!(isqrt64(4_000_000_000_000_000_000), 2_000_000_000);
    assert_eq!(isqrt64(3_999_999_999_999_999_999), 1_999_999_999);
}

#[test]
fn cap_add_saturates() {
    assert_eq!(cap_add(1, 2), 3);
    assert_eq!(cap_add(COORD_LIMIT, 1), COORD_LIMIT);
    assert_eq!(cap_add(-COORD_LIMIT, -1), -COORD_LIMIT);
    assert_eq!(cap_add(i64::MAX, i64::MAX), COORD_LIMIT);
    assert_eq!(cap_add(i64::MIN, 0), -COORD_LIMIT);
}

#[test]
fn mul_div_rounds_toward_zero() {
    assert_eq!(mul_div_cap(7, 3, 2), 10);
    assert_eq!(mul_div_cap(-7, 3, 2), -10);
    assert_eq!(mul_div_cap(7, -3, 2), -10);
    assert_eq!(mul_div_cap(-7, -3, 2), 10);
    assert_eq!(mul_div_cap(0, -3, 2), 0);
}

#[test]
fn mul_div_saturates_at_coordinate_range() {
    assert_eq!(mul_div_cap(i64::MAX, 2, 1), COORD_LIMIT);
    assert_eq!(mul_div_cap(i64::MIN, 2, 1), -COORD_LIMIT);
}

#[test]
fn clamp_holds_range() {
    assert_eq!(clamp64(5, -1, 1), 1);
    assert_eq!(clamp64(-5, -1, 1), -1);
    assert_eq!(clamp64(0, -1, 1), 0);
}
