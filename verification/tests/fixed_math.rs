use noodle_cat::fixed::{fx_mul, fx_div, fx_sqrt, fx_abs, fx_clamp, FX_ONE};
use noodle_cat::math::{
    Vec2, vec2, wrap_angle, fx_sin, fx_cos, fx_atan2, PI_FX, TAU_FX, HALF_PI_FX,
};

#[test]
fn multiply_scales_back_down() {
    assert_eq!(fx_mul(2_000_000, 3_000_000), 6_000_000);
    assert_eq!(fx_mul(500_000, 500_000), 250_000);
    assert_eq!(fx_mul(-1_500_000, 2_000_000), -3_000_000);
    assert_eq!(fx_mul(-1_500_000, -2_000_000), 3_000_000);
    assert_eq!(fx_mul(1, 999_999), 0);
    assert_eq!(fx_mul(-1, 999_999), 0);
}

#[test]
fn divide_scales_up() {
    assert_eq!(fx_div(1_000_000, 3_000_000), 333_333);
    assert_eq!(fx_div(-1_000_000, 3_000_000), -333_333);
    assert_eq!(fx_div(1_000_000, -3_000_000), -333_333);
    assert_eq!(fx_div(6_000_000, 2_000_000), 3_000_000);
}

#[test]
fn square_root_is_exact_on_squares() {
    assert_eq!(fx_sqrt(0), 0);
    assert_eq!(fx_sqrt(4_000_000), 2_000);
    assert_eq!(fx_sqrt(25_000_000_000_000), 5_000_000);
    assert_eq!(fx_sqrt(24_999_999_999_999), 4_999_999);
}

#[test]
fn abs_and_clamp() {
    assert_eq!(fx_abs(-7), 7);
    assert_eq!(fx_abs(7), 7);
    assert_eq!(fx_clamp(5, -2, 2), 2);
    assert_eq!(fx_clamp(-5, -2, 2), -2);
    assert_eq!(fx_clamp(1, -2, 2), 1);
}

#[test]
fn wrapping_lands_in_half_open_turn() {
    assert_eq!(wrap_angle(0), 0);
    assert_eq!(wrap_angle(TAU_FX + 500_000), 500_000);
    assert_eq!(wrap_angle(-TAU_FX - 500_000), -500_000);
    assert_eq!(wrap_angle(PI_FX), -PI_FX);
    assert_eq!(wrap_angle(-PI_FX), -PI_FX);
    for k in -5i64..=5 {
        let a = k * TAU_FX + 123_456;
        assert_eq!(wrap_angle(a), 123_456);
    }
}

#[test]
fn sine_and_cosine_hit_the_axes() {
    assert_eq!(fx_sin(0), 0);
    let s = fx_sin(HALF_PI_FX);
    assert!((990_000..=1_010_000).contains(&s));
    assert_eq!(fx_sin(-HALF_PI_FX), -s);
    assert_eq!(fx_cos(HALF_PI_FX + 1), fx_sin(HALF_PI_FX + 1 + HALF_PI_FX));
    let c = fx_cos(0);
    assert!((990_000..=1_010_000).contains(&c));
    // A quarter turn later the cosine crosses zero.
    assert_eq!(fx_cos(HALF_PI_FX), fx_sin(HALF_PI_FX + HALF_PI_FX));
}

#[test]
fn arctangent_quadrants() {
    assert_eq!(fx_atan2(0, 1_000_000), 0);
    assert_eq!(fx_atan2(1_000_000, 0), HALF_PI_FX);
    assert_eq!(fx_atan2(-1_000_000, 0), -HALF_PI_FX);
    assert_eq!(fx_atan2(0, -1_000_000), PI_FX);
    // On the diagonal the approximation is exact: an eighth of a turn.
    assert_eq!(fx_atan2(1_000_000, 1_000_000), 785_398);
    assert_eq!(fx_atan2(-1_000_000, 1_000_000), -785_398);
}

#[test]
fn vector_operations() {
    let a = vec2(3_000_000, 4_000_000);
    assert_eq!(a.length(), 5_000_000);
    assert_eq!(a.length_squared(), 25_000_000);
    let n = a.normalized();
    assert_eq!(n, vec2(600_000, 800_000));
    let b = vec2(1_000_000, 0);
    assert_eq!(b.rotated(vec2(0, 1_000_000)), vec2(0, 1_000_000));
    assert_eq!(b.rotated(vec2(0, 1_000_000)).unrotated(vec2(0, 1_000_000)), b);
    assert_eq!(a.dot(b), 3_000_000);
    assert_eq!(a.add(b), vec2(4_000_000, 4_000_000));
    assert_eq!(a.sub(b), vec2(2_000_000, 4_000_000));
    assert_eq!(a.neg(), vec2(-3_000_000, -4_000_000));
    assert_eq!(a.scale(500_000), vec2(1_500_000, 2_000_000));
    assert_eq!(vec2(5, 9).clamped(6), Vec2 { x: 5, y: 6 });
}

#[test]
fn unit_vector_of_zero_points_right() {
    let u = Vec2::from_angle(0);
    assert_eq!(u.y, 0);
    assert!(u.x > 990_000);
    assert_eq!(vec2(FX_ONE, 0).to_angle(), 0);
}
