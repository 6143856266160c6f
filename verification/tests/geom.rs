use sword_arena::geom::{div_trunc_i64, isqrt, Vector2};

#[test]
fn isqrt_exact_values() {
    assert_eq!(isqrt(0), 0);
    assert_eq!(isqrt(1), 1);
    assert_eq!(isqrt(2), 1);
    assert_eq!(isqrt(3), 1);
    assert_eq!(isqrt(4), 2);
    assert_eq!(isqrt(999_999), 999);
    assert_eq!(isqrt(1_000_000), 1000);
    assert_eq!(isqrt(u64::MAX), 4_294_967_295);
}

#[test]
fn magnitude_squared_is_exact() {
    let v = Vector2 { x: 3, y: -4 };
    assert_eq!(v.magnitude_squared(), 25);
}

#[test]
fn clamping_a_long_vector_scales_it_down() {
    // A 3-4-5 triangle: magnitude 5000, clamped to 1000 gives (600, 800).
    let v = Vector2 { x: 3000, y: 4000 };
    let c = v.clamped_to(1000);
    assert_eq!(c.x, 600);
    assert_eq!(c.y, 800);
}

#[test]
fn clamping_a_short_vector_returns_it_unchanged() {
    let v = Vector2 { x: -30, y: 40 };
    let c = v.clamped_to(1000);
    assert_eq!(c, v);
}

#[test]
fn division_truncates_toward_zero() {
    assert_eq!(div_trunc_i64(7, 2), 3);
    assert_eq!(div_trunc_i64(-7, 2), -3);
    assert_eq!(div_trunc_i64(-1, 1_000_000_000), 0);
}
