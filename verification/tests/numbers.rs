use regolith::utils::fixed::{Fixed, LIMIT, SCALE};
use regolith::utils::quaternion::Quat;
use regolith::utils::trig::{sin_cos, HALF_PI, PI};
use regolith::utils::vector::{integer_sqrt, Vec3};

fn fx(raw: i64) -> Fixed {
    Fixed::from_raw(raw)
}

fn v3(x: i64, y: i64, z: i64) -> Vec3 {
    Vec3::new(fx(x), fx(y), fx(z))
}

fn raws(v: Vec3) -> (i64, i64, i64) {
    (v.x.raw(), v.y.raw(), v.z.raw())
}

#[test]
fn raw_values_round_trip_and_saturate() {
    assert_eq!(fx(123).raw(), 123);
    assert_eq!(fx(-LIMIT).raw(), -LIMIT);
    assert_eq!(fx(LIMIT + 1).raw(), LIMIT);
    assert_eq!(fx(i64::MIN).raw(), -LIMIT);
    assert_eq!(fx(i64::MAX).raw(), LIMIT);
    assert_eq!(Fixed::zero().raw(), 0);
    assert_eq!(Fixed::one().raw(), SCALE);
}

#[test]
fn whole_numbers_scale_and_saturate() {
    assert_eq!(Fixed::from_int(3).raw(), 3 * SCALE);
    assert_eq!(Fixed::from_int(-240).raw(), -240 * SCALE);
    assert_eq!(Fixed::from_int(1_000_000_000).raw(), LIMIT);
    assert_eq!(Fixed::from_int(1_000_000_001).raw(), LIMIT);
    assert_eq!(Fixed::from_int(i64::MIN).raw(), -LIMIT);
}

#[test]
fn sums_and_differences_saturate() {
    assert_eq!(fx(5).add(fx(-7)).raw(), -2);
    assert_eq!(fx(LIMIT).add(fx(1)).raw(), LIMIT);
    assert_eq!(fx(-LIMIT).sub(fx(1)).raw(), -LIMIT);
    assert_eq!(fx(LIMIT).sub(fx(-LIMIT)).raw(), LIMIT);
    assert_eq!(fx(600_000_000).twice().raw(), 1_200_000_000);
    assert_eq!(fx(-LIMIT).twice().raw(), -LIMIT);
}

#[test]
fn negation_and_absolute_value_are_exact() {
    assert_eq!(fx(LIMIT).neg().raw(), -LIMIT);
    assert_eq!(fx(-LIMIT).neg().raw(), LIMIT);
    assert_eq!(fx(-LIMIT).abs().raw(), LIMIT);
    assert_eq!(fx(-3).abs().raw(), 3);
    assert_eq!(fx(3).abs().raw(), 3);
}

#[test]
fn products_round_toward_zero() {
    assert_eq!(fx(1_500_000_000).mul(fx(2_000_000_000)).raw(), 3_000_000_000);
    assert_eq!(fx(1).mul(fx(500_000_000)).raw(), 0);
    assert_eq!(fx(-1).mul(fx(500_000_000)).raw(), 0);
    assert_eq!(fx(3).mul(fx(500_000_000)).raw(), 1);
    assert_eq!(fx(-3).mul(fx(500_000_000)).raw(), -1);
    assert_eq!(fx(-3).mul(fx(-500_000_000)).raw(), 1);
    assert_eq!(fx(-1_625_000_000).mul(fx(4_166_666)).raw(), -6_770_832);
    assert_eq!(fx(LIMIT).mul(fx(LIMIT)).raw(), LIMIT);
    assert_eq!(fx(LIMIT).mul(fx(-2 * SCALE)).raw(), -LIMIT);
}

#[test]
fn quotients_round_toward_zero() {
    assert_eq!(fx(SCALE).div(fx(240 * SCALE)).raw(), 4_166_666);
    assert_eq!(fx(-SCALE).div(fx(240 * SCALE)).raw(), -4_166_666);
    assert_eq!(fx(SCALE).div(fx(-3 * SCALE)).raw(), -333_333_333);
    assert_eq!(fx(-SCALE).div(fx(-3 * SCALE)).raw(), 333_333_333);
    assert_eq!(fx(SCALE).div(fx(2_000_000)).raw(), 500 * SCALE);
    assert_eq!(fx(SCALE).div(fx(1)).raw(), LIMIT);
    assert_eq!(fx(2 * SCALE).div(fx(1)).raw(), LIMIT);
}

#[test]
fn division_by_zero_saturates_by_sign() {
    assert_eq!(fx(5).div(fx(0)).raw(), LIMIT);
    assert_eq!(fx(-5).div(fx(0)).raw(), -LIMIT);
    assert_eq!(fx(0).div(fx(0)).raw(), 0);
}

#[test]
fn comparisons_follow_raw_values() {
    assert!(fx(1).lt(fx(2)));
    assert!(!fx(2).lt(fx(2)));
    assert!(fx(3).gt(fx(2)));
    assert!(!fx(2).gt(fx(2)));
    assert!(fx(0).is_zero());
    assert!(!fx(-1).is_zero());
}

#[test]
fn integer_square_roots_round_down() {
    assert_eq!(integer_sqrt(0), 0);
    assert_eq!(integer_sqrt(1), 1);
    assert_eq!(integer_sqrt(3), 1);
    assert_eq!(integer_sqrt(4), 2);
    assert_eq!(integer_sqrt(99), 9);
    assert_eq!(integer_sqrt(100), 10);
    assert_eq!(integer_sqrt(2_000_000_000_000_000_000), 1_414_213_562);
    assert_eq!(integer_sqrt(u128::MAX), 18_446_744_073_709_551_615);
}

#[test]
fn vector_sums_scale_and_negate_by_component() {
    let a = v3(1, -2, 3);
    let b = v3(10, 20, 30);
    assert_eq!(raws(a.add(b)), (11, 18, 33));
    assert_eq!(raws(a.sub(b)), (-9, -22, -27));
    assert_eq!(raws(a.neg()), (-1, 2, -3));
    assert_eq!(raws(b.scale(fx(500_000_000))), (5, 10, 15));
    assert_eq!(raws(b.unscale(fx(500_000_000))), (20, 40, 60));
    assert_eq!(raws(Vec3::zero()), (0, 0, 0));
    assert_eq!(raws(v3(LIMIT, -LIMIT, 0).add(v3(1, -1, 0))), (LIMIT, -LIMIT, 0));
}

#[test]
fn dot_product_rounds_once() {
    let a = v3(SCALE, 2 * SCALE, 3 * SCALE);
    let b = v3(4 * SCALE, -5 * SCALE, 6 * SCALE);
    assert_eq!(a.dot(b).raw(), 12 * SCALE);
    // Each product alone would round to zero; their exact sum does not.
    let c = v3(600_000_000, 600_000_000, 0);
    let d = v3(1, 1, 0);
    assert_eq!(c.dot(d).raw(), 1);
    assert_eq!(v3(LIMIT, LIMIT, LIMIT).dot(v3(LIMIT, LIMIT, LIMIT)).raw(), LIMIT);
}

#[test]
fn cross_product_follows_right_hand_rule() {
    let x = v3(SCALE, 0, 0);
    let y = v3(0, SCALE, 0);
    let z = v3(0, 0, SCALE);
    assert_eq!(x.cross(y), z);
    assert_eq!(y.cross(z), x);
    assert_eq!(z.cross(x), y);
    assert_eq!(y.cross(x), z.neg());
    assert_eq!(
        raws(v3(1_000_000, -10_000_000, 2_000_000).cross(v3(0, -930_000_000, 0))),
        (1_860_000, 0, -930_000)
    );
}

#[test]
fn length_is_euclidean_rounded_down() {
    assert_eq!(v3(3 * SCALE, 4 * SCALE, 0).length().raw(), 5 * SCALE);
    assert_eq!(v3(0, -1_625_000_000, 0).length().raw(), 1_625_000_000);
    assert_eq!(v3(1, 1, 0).length().raw(), 1);
    assert_eq!(v3(SCALE, SCALE, SCALE).length().raw(), 1_732_050_807);
    assert_eq!(Vec3::zero().length().raw(), 0);
    assert_eq!(v3(LIMIT, LIMIT, LIMIT).length().raw(), LIMIT);
}

#[test]
fn normalize_gives_unit_length_or_zero() {
    assert_eq!(raws(v3(9_000_000, 12_000_000, 0).normalize()), (600_000_000, 800_000_000, 0));
    assert_eq!(raws(v3(0, 0, -5).normalize()), (0, 0, -SCALE));
    assert_eq!(raws(v3(SCALE, SCALE, 0).normalize()), (707_106_781, 707_106_781, 0));
    assert_eq!(
        raws(v3(SCALE, -SCALE, SCALE).normalize()),
        (577_350_269, -577_350_269, 577_350_269)
    );
    assert_eq!(raws(Vec3::zero().normalize()), (0, 0, 0));
    assert_eq!(raws(v3(LIMIT, 0, 0).normalize()), (SCALE, 0, 0));
    assert_eq!(
        raws(v3(LIMIT, LIMIT, LIMIT).normalize()),
        (577_350_269, 577_350_269, 577_350_269)
    );
}

#[test]
fn sine_and_cosine_at_known_angles() {
    let at = |a: i64| {
        let (s, c) = sin_cos(fx(a));
        (s.raw(), c.raw())
    };
    assert_eq!(at(0), (0, SCALE));
    assert_eq!(at(HALF_PI), (SCALE, 6));
    assert_eq!(at(-HALF_PI), (-SCALE, 6));
    assert_eq!(at(PI), (0, -SCALE));
    assert_eq!(at(SCALE), (841_470_985, 540_302_305));
    assert_eq!(at(523_598_776), (500_000_000, 866_025_404));
    assert_eq!(at(7 * SCALE), (656_986_599, 753_902_254));
    assert_eq!(at(-100 * SCALE), (506_365_638, 862_318_875));
}

#[test]
fn sine_and_cosine_lie_on_the_unit_circle() {
    let one = (SCALE as i128) * (SCALE as i128);
    let check = |a: i64| {
        let (s, c) = sin_cos(fx(a));
        assert!(s.raw().abs() <= SCALE);
        assert!(c.raw().abs() <= SCALE);
        let norm = (s.raw() as i128) * (s.raw() as i128) + (c.raw() as i128) * (c.raw() as i128);
        assert!(norm > one - 6 * SCALE as i128 - 3);
        assert!(norm < (SCALE as i128 + 2) * (SCALE as i128 + 2));
    };
    let mut a: i64 = -20 * SCALE;
    while a <= 20 * SCALE {
        check(a);
        a += 123_456_789;
    }
    check(LIMIT);
    check(-LIMIT);
    check(HALF_PI);
    check(PI);
}

#[test]
fn sine_is_odd_and_cosine_is_even() {
    let mut a: i64 = 0;
    while a <= 20 * SCALE {
        let (s, c) = sin_cos(fx(a));
        let (t, d) = sin_cos(fx(-a));
        assert_eq!(t.raw(), -s.raw());
        assert_eq!(d.raw(), c.raw());
        a += 98_765_432;
    }
}

#[test]
fn quaternion_length_is_euclidean_rounded_down() {
    assert_eq!(Quat::new(fx(3), fx(0), fx(4), fx(0)).length().raw(), 5);
    assert_eq!(Quat::new(fx(1), fx(1), fx(1), fx(0)).length().raw(), 1);
    assert_eq!(Quat::new(fx(SCALE), fx(SCALE), fx(SCALE), fx(SCALE)).length().raw(), 2 * SCALE);
    assert_eq!(Quat::identity().length().raw(), SCALE);
    assert_eq!(Quat::new(fx(LIMIT), fx(LIMIT), fx(LIMIT), fx(LIMIT)).length().raw(), LIMIT);
    assert_eq!(Quat::new(fx(0), fx(0), fx(0), fx(0)).length().raw(), 0);
}

#[test]
fn quaternions_are_brought_to_unit_length() {
    let q = Quat::new(fx(3), fx(0), fx(4), fx(0)).normalize();
    assert_eq!((q.x.raw(), q.y.raw(), q.z.raw(), q.w.raw()), (600_000_000, 0, 800_000_000, 0));
    let h = Quat::new(fx(SCALE), fx(-SCALE), fx(SCALE), fx(SCALE)).normalize();
    assert_eq!(
        (h.x.raw(), h.y.raw(), h.z.raw(), h.w.raw()),
        (500_000_000, -500_000_000, 500_000_000, 500_000_000)
    );
    let big = Quat::new(fx(LIMIT), fx(LIMIT), fx(LIMIT), fx(LIMIT)).normalize();
    assert_eq!(big, Quat::new(fx(500_000_000), fx(500_000_000), fx(500_000_000), fx(500_000_000)));
    let none = Quat::new(fx(0), fx(0), fx(0), fx(0)).normalize();
    assert_eq!(none, Quat::identity());
    assert_eq!(Quat::identity().normalize(), Quat::identity());
}

#[test]
fn identity_quaternion_rotates_nothing() {
    let q = Quat::identity();
    assert_eq!((q.x.raw(), q.y.raw(), q.z.raw(), q.w.raw()), (0, 0, 0, SCALE));
    let v = v3(1_000_000, -10_000_000, 2_000_000);
    assert_eq!(q.rotate(v), v);
    assert_eq!(q.inverse(), q);
    let r = Quat::from_rotation_x(fx(SCALE));
    assert_eq!(q.mul(r), r);
    assert_eq!(r.mul(q), r);
}

#[test]
fn rotations_about_the_axes() {
    let rx = Quat::from_rotation_x(fx(SCALE));
    assert_eq!(
        (rx.x.raw(), rx.y.raw(), rx.z.raw(), rx.w.raw()),
        (479_425_539, 0, 0, 877_582_562)
    );
    let ry = Quat::from_rotation_y(fx(-500_000_000));
    assert_eq!(
        (ry.x.raw(), ry.y.raw(), ry.z.raw(), ry.w.raw()),
        (0, -247_403_959, 0, 968_912_422)
    );
    assert_eq!(Quat::from_rotation_x(fx(0)), Quat::identity());
    assert_eq!(Quat::from_rotation_y(fx(0)), Quat::identity());
}

#[test]
fn quarter_turn_about_the_vertical() {
    let q = Quat::from_rotation_y(fx(HALF_PI));
    assert_eq!(
        (q.x.raw(), q.y.raw(), q.z.raw(), q.w.raw()),
        (0, 707_106_781, 0, 707_106_782)
    );
    assert_eq!(raws(q.rotate(v3(SCALE, 0, 0))), (2, 0, -SCALE));
    assert_eq!(raws(q.inverse().rotate(v3(SCALE, 0, 0))), (2, 0, SCALE));
    let i = q.inverse();
    assert_eq!((i.x.raw(), i.y.raw(), i.z.raw(), i.w.raw()), (0, -707_106_781, 0, 707_106_782));
}

#[test]
fn quaternion_product_composes_rotations() {
    let yaw = Quat::from_rotation_y(fx(-500_000_000));
    let pitch = Quat::from_rotation_x(fx(200_000_000));
    let q = yaw.mul(pitch);
    assert_eq!(
        (q.x.raw(), q.y.raw(), q.z.raw(), q.w.raw()),
        (96_729_836, -246_167_969, 24_699_182, 964_071_896)
    );
}
