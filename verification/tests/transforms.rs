use isoscene::coords::{d2_to_iso, iso_to_d2};
use isoscene::fixed::Fixed;
use isoscene::linear::{vec2, Mat2, Vec2};
use isoscene::math::{screen_to_world, world_to_screen, TOLERANCE_RAW};

fn fx(n: i32) -> Fixed {
    Fixed::from_int(n)
}

fn close(a: Vec2, b: Vec2) -> bool {
    (a.x.raw - b.x.raw).abs() <= TOLERANCE_RAW && (a.y.raw - b.y.raw).abs() <= TOLERANCE_RAW
}

#[test]
fn fixed_whole_numbers_are_exact() {
    assert_eq!(fx(1).raw, 1i64 << 32);
    assert_eq!(fx(-3).raw, -3 * (1i64 << 32));
    assert_eq!(fx(7).plus(fx(5)), fx(12));
    assert_eq!(fx(7).minus(fx(9)), fx(-2));
    assert_eq!(fx(7).times(fx(-5)), fx(-35));
    assert_eq!(fx(8).half(), fx(4));
    assert_eq!(fx(-8).half(), fx(-4));
    assert_eq!(fx(3).neg(), fx(-3));
}

#[test]
fn fixed_products_round_towards_zero() {
    let third = Fixed::from_raw(0x5555_5555);
    assert_eq!(Fixed::from_raw(3).times(third).raw, 0);
    assert_eq!(Fixed::from_raw(-3).times(third).raw, 0);
    assert_eq!(Fixed::from_raw(7).half().raw, 3);
    assert_eq!(Fixed::from_raw(-7).half().raw, -3);
    let quarter = Fixed::from_raw(1 << 30);
    assert_eq!(fx(10).times(quarter).raw, (10i64 << 32) / 4);
}

#[test]
fn fixed_arithmetic_saturates() {
    let max = Fixed::from_raw(i64::MAX);
    let min = Fixed::from_raw(i64::MIN);
    assert_eq!(max.plus(fx(1)).raw, i64::MAX);
    assert_eq!(min.minus(fx(1)).raw, -i64::MAX);
    assert_eq!(min.neg().raw, i64::MAX);
    assert_eq!(max.times(fx(2)).raw, i64::MAX);
    assert_eq!(max.times(fx(-2)).raw, -i64::MAX);
    assert_eq!(Fixed::from_int(i32::MIN).raw, -i64::MAX);
}

#[test]
fn matrix_times_vector_combines_columns() {
    let m = Mat2::from_cols(vec2(fx(1), fx(2)), vec2(fx(3), fx(4)));
    assert_eq!(m.mul_vec2(vec2(fx(5), fx(6))), vec2(fx(23), fx(34)));
}

#[test]
fn world_to_screen_of_unit_axes() {
    let x = world_to_screen(vec2(fx(1), fx(0)));
    assert_eq!(x.x.raw, 3841537250);
    assert_eq!(x.y.raw, -1920764336);
    let y = world_to_screen(vec2(fx(0), fx(1)));
    assert_eq!(y.x.raw, -3841537250);
    assert_eq!(y.y.raw, -1920764336);
}

#[test]
fn screen_to_world_of_unit_axes() {
    let x = screen_to_world(vec2(fx(1), fx(0)));
    assert_eq!(x.x.raw, 2400958636);
    assert_eq!(x.y.raw, -2400958636);
    let y = screen_to_world(vec2(fx(0), fx(1)));
    assert_eq!(y.x.raw, -4801927995);
    assert_eq!(y.y.raw, -4801927995);
}

#[test]
fn world_screen_round_trip_within_tolerance() {
    let samples = [(0, 0), (1, 0), (0, 1), (500, 200), (-350, 80), (524288, -524288), (-524288, -524288)];
    for (x, y) in samples {
        let v = vec2(fx(x), fx(y));
        assert!(close(screen_to_world(world_to_screen(v)), v));
        assert!(close(world_to_screen(screen_to_world(v)), v));
    }
}

#[test]
fn iso_d2_round_trip_within_tolerance() {
    let samples = [(0, 0), (3, -4), (1000, 1000), (-12345, 54321)];
    for (x, y) in samples {
        let v = vec2(fx(x), fx(y));
        assert!(close(d2_to_iso(iso_to_d2(v)), v));
        assert!(close(iso_to_d2(d2_to_iso(v)), v));
    }
}

#[test]
fn iso_pair_agrees_with_world_screen_pair() {
    let v = vec2(fx(12), fx(-7));
    assert_eq!(iso_to_d2(v), world_to_screen(v));
    assert_eq!(d2_to_iso(v), screen_to_world(v));
}

#[test]
fn velocity_round_trip_reproduces_velocity() {
    let input = vec2(fx(1), fx(0));
    let velocity = screen_to_world(input).scale(fx(200));
    let back = screen_to_world(world_to_screen(velocity));
    assert!(close(back, velocity));
}

#[test]
fn round_trip_fails_far_outside_the_range() {
    let v = vec2(Fixed::from_raw(i64::MAX), Fixed::from_raw(0));
    assert!(!close(screen_to_world(world_to_screen(v)), v));
}
