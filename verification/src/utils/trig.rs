//! Sine and cosine of fixed-point angles: range reduction, a truncated
//! power series for each, and the pair brought to unit length, so that the
//! two always lie on the unit circle up to rounding.

use vstd::prelude::*;
use crate::utils::fixed::{
    lemma_quot_odd, lemma_sat_mul_odd, sat_div, sat_mul, sat_sub, Fixed, SCALE,
};
use crate::utils::vector::{
    is_floor_sqrt, lemma_component_within_norm, lemma_floor_sqrt, lemma_floor_sqrt_unique,
    lemma_normalized_is_unit, lemma_unit_quotient, v_norm, v_norm_squared, v_normalized, Vec3, V3,
};

verus! {

/// Half a turn, in raw radians.
pub const PI: i64 = 3_141_592_654;

/// A quarter turn, in raw radians.
pub const HALF_PI: i64 = 1_570_796_327;

/// A full turn, in raw radians.
pub const TWO_PI: i64 = 6_283_185_307;

/// The angle `a` brought into `[-PI, PI]` by dropping whole turns.
pub open spec fn wrapped_angle(a: int) -> int {
    let r = if a >= 0 {
        a % (TWO_PI as int)
    } else {
        -((-a) % (TWO_PI as int))
    };
    if r > PI {
        r - TWO_PI
    } else if r < -PI {
        r + TWO_PI
    } else {
        r
    }
}

/// Whether the wrapped angle `r` lies outside the quarter turns on either
/// side of zero, where the cosine is negative.
pub open spec fn beyond_quarter(r: int) -> bool {
    r > HALF_PI || r < -HALF_PI
}

/// The wrapped angle `r` mirrored into `[-HALF_PI, HALF_PI]`: the result
/// has the same sine, and the opposite cosine if `r` was mirrored.
pub open spec fn mirrored_angle(r: int) -> int {
    if r > HALF_PI {
        PI - r
    } else if r < -HALF_PI {
        -PI - r
    } else {
        r
    }
}

/// One nested factor `1 - (square / divisor) * inner` of a power series
/// written in Horner form.
pub open spec fn series_factor(square: int, inner: int, divisor: int) -> int {
    sat_sub(SCALE as int, sat_mul(sat_div(square, divisor), inner))
}

/// `x - x^3/3! + x^5/5! - ... - x^11/11! + x^13/13!` in Horner form.
pub open spec fn sine_series(x: int) -> int {
    let q = sat_mul(x, x);
    let f6 = series_factor(q, SCALE as int, 156 * SCALE);
    let f5 = series_factor(q, f6, 110 * SCALE);
    let f4 = series_factor(q, f5, 72 * SCALE);
    let f3 = series_factor(q, f4, 42 * SCALE);
    let f2 = series_factor(q, f3, 20 * SCALE);
    let f1 = series_factor(q, f2, 6 * SCALE);
    sat_mul(x, f1)
}

/// `1 - x^2/2! + x^4/4! - ... + x^12/12!` in Horner form.
pub open spec fn cosine_series(x: int) -> int {
    let q = sat_mul(x, x);
    let f6 = series_factor(q, SCALE as int, 132 * SCALE);
    let f5 = series_factor(q, f6, 90 * SCALE);
    let f4 = series_factor(q, f5, 56 * SCALE);
    let f3 = series_factor(q, f4, 30 * SCALE);
    let f2 = series_factor(q, f3, 12 * SCALE);
    series_factor(q, f2, 2 * SCALE)
}

/// `v` clamped into `[-1, 1]`.
pub open spec fn unit_clamped(v: int) -> int {
    if v > SCALE {
        SCALE as int
    } else if v < -SCALE {
        -SCALE
    } else {
        v
    }
}

/// The power series of the sine at the angle `a`, before it is brought to
/// unit length together with that of the cosine.
pub open spec fn sine_estimate(a: int) -> int {
    unit_clamped(sine_series(mirrored_angle(wrapped_angle(a))))
}

/// The power series of the cosine at the angle `a`, before it is brought
/// to unit length together with that of the sine.
pub open spec fn cosine_estimate(a: int) -> int {
    let r = wrapped_angle(a);
    let c = unit_clamped(cosine_series(mirrored_angle(r)));
    if beyond_quarter(r) {
        -c
    } else {
        c
    }
}

/// The two estimates as a vector in the plane.
pub open spec fn estimates(a: int) -> V3 {
    V3 { x: sine_estimate(a), y: cosine_estimate(a), z: 0 }
}

/// Sine of the angle `a`: its estimate, scaled so that sine and cosine
/// together have length one.
pub open spec fn sine(a: int) -> int {
    v_normalized(estimates(a)).x
}

/// Cosine of the angle `a`: its estimate, scaled so that sine and cosine
/// together have length one.
pub open spec fn cosine(a: int) -> int {
    v_normalized(estimates(a)).y
}

/// A factor of a series lies between one less `bound` and one, where
/// `bound` is a bound on `square / divisor`.
proof fn lemma_series_factor_range(square: int, inner: int, divisor: int, bound: int)
    requires
        0 <= square,
        0 <= inner <= SCALE,
        0 < divisor,
        square * SCALE <= bound * divisor,
        0 <= bound <= SCALE,
    ensures
        SCALE - bound <= series_factor(square, inner, divisor) <= SCALE,
{
    let n = square * SCALE;
    assert(n >= 0) by (nonlinear_arith)
        requires
            n == square * SCALE,
            square >= 0,
            SCALE > 0,
    ;
    let t = n / divisor;
    vstd::arithmetic::div_mod::lemma_div_is_ordered(0, n, divisor);
    vstd::arithmetic::div_mod::lemma_div_is_ordered(n, bound * divisor, divisor);
    vstd::arithmetic::div_mod::lemma_div_multiples_vanish(bound, divisor);
    assert(0int / divisor == 0) by (nonlinear_arith)
        requires
            divisor > 0,
    ;
    assert(bound * divisor == divisor * bound) by (nonlinear_arith);
    assert(0 <= t <= bound);
    assert(sat_div(square, divisor) == t);
    let p = t * inner;
    assert(0 <= p <= bound * SCALE) by (nonlinear_arith)
        requires
            p == t * inner,
            0 <= t <= bound,
            0 <= inner <= SCALE,
    ;
    vstd::arithmetic::div_mod::lemma_div_is_ordered(0, p, SCALE as int);
    vstd::arithmetic::div_mod::lemma_div_is_ordered(p, bound * SCALE, SCALE as int);
    vstd::arithmetic::div_mod::lemma_div_multiples_vanish(bound, SCALE as int);
    assert(sat_mul(t, inner) == p / (SCALE as int));
}

/// Within a quarter turn of zero the estimates never vanish together:
/// between them they are at least half a whole long, so bringing them to
/// unit length loses nothing.
pub proof fn lemma_estimates_are_long(a: int)
    ensures
        2 * v_norm(estimates(a)) >= SCALE,
{
    let r = wrapped_angle(a);
    let x = mirrored_angle(r);
    let xx = x * x;
    assert(0 <= xx <= 2_467_401_100_916_690_929 && (-SCALE <= x <= SCALE ==> xx <= SCALE * SCALE))
        by (nonlinear_arith)
        requires
            xx == x * x,
            -1_570_796_327 <= x <= 1_570_796_327,
            SCALE == 1_000_000_000,
    ;
    let q = sat_mul(x, x);
    vstd::arithmetic::div_mod::lemma_div_is_ordered(0, xx, SCALE as int);
    vstd::arithmetic::div_mod::lemma_div_is_ordered(xx, 2_467_401_100_916_690_929, SCALE as int);
    assert(0 <= q <= 2_467_401_100);
    let one = SCALE as int;
    if -SCALE < x < SCALE {
        vstd::arithmetic::div_mod::lemma_div_is_ordered(xx, SCALE * SCALE, SCALE as int);
        vstd::arithmetic::div_mod::lemma_div_multiples_vanish(SCALE as int, SCALE as int);
        assert(q <= SCALE);
        let g6 = series_factor(q, one, 132 * SCALE);
        lemma_series_factor_range(q, one, 132 * SCALE, 18_692_433);
        let g5 = series_factor(q, g6, 90 * SCALE);
        lemma_series_factor_range(q, g6, 90 * SCALE, 27_415_568);
        let g4 = series_factor(q, g5, 56 * SCALE);
        lemma_series_factor_range(q, g5, 56 * SCALE, 44_060_734);
        let g3 = series_factor(q, g4, 30 * SCALE);
        lemma_series_factor_range(q, g4, 30 * SCALE, 82_246_704);
        let g2 = series_factor(q, g3, 12 * SCALE);
        lemma_series_factor_range(q, g3, 12 * SCALE, 205_616_759);
        lemma_series_factor_range(q, g2, 2 * SCALE, 500_000_000);
        let c = cosine_estimate(a);
        assert(c >= 500_000_000 || c <= -500_000_000);
        assert(c * c >= 250_000_000_000_000_000) by (nonlinear_arith)
            requires
                c >= 500_000_000 || c <= -500_000_000,
        ;
    } else {
        let f6 = series_factor(q, one, 156 * SCALE);
        lemma_series_factor_range(q, one, 156 * SCALE, 15_816_674);
        let f5 = series_factor(q, f6, 110 * SCALE);
        lemma_series_factor_range(q, f6, 110 * SCALE, 22_430_920);
        let f4 = series_factor(q, f5, 72 * SCALE);
        lemma_series_factor_range(q, f5, 72 * SCALE, 34_269_460);
        let f3 = series_factor(q, f4, 42 * SCALE);
        lemma_series_factor_range(q, f4, 42 * SCALE, 58_747_646);
        let f2 = series_factor(q, f3, 20 * SCALE);
        lemma_series_factor_range(q, f3, 20 * SCALE, 123_370_055);
        let f1 = series_factor(q, f2, 6 * SCALE);
        lemma_series_factor_range(q, f2, 6 * SCALE, 411_233_517);
        let p = x * f1;
        if x >= SCALE {
            assert(p >= 588_766_483 * SCALE) by (nonlinear_arith)
                requires
                    p == x * f1,
                    x >= SCALE,
                    f1 >= 588_766_483,
                    SCALE > 0,
            ;
            vstd::arithmetic::div_mod::lemma_div_is_ordered(588_766_483 * SCALE, p, SCALE as int);
            vstd::arithmetic::div_mod::lemma_div_multiples_vanish(588_766_483, SCALE as int);
        } else {
            assert(-p >= 588_766_483 * SCALE) by (nonlinear_arith)
                requires
                    p == x * f1,
                    x <= -SCALE,
                    f1 >= 588_766_483,
                    SCALE > 0,
            ;
            vstd::arithmetic::div_mod::lemma_div_is_ordered(588_766_483 * SCALE, -p, SCALE as int);
            vstd::arithmetic::div_mod::lemma_div_multiples_vanish(588_766_483, SCALE as int);
        }
        let s = sine_estimate(a);
        assert(s >= 500_000_000 || s <= -500_000_000);
        assert(s * s >= 250_000_000_000_000_000) by (nonlinear_arith)
            requires
                s >= 500_000_000 || s <= -500_000_000,
        ;
    }
    let e = estimates(a);
    assert(e.x * e.x >= 0 && e.y * e.y >= 0 && e.z * e.z == 0) by (nonlinear_arith)
        requires
            e.z == 0,
    ;
    let total = v_norm_squared(e);
    lemma_floor_sqrt(total);
    let n = v_norm(e);
    assert(2 * n >= SCALE) by (nonlinear_arith)
        requires
            total < (n + 1) * (n + 1),
            total >= 250_000_000_000_000_000,
            n >= 0,
            SCALE == 1_000_000_000,
    ;
}

/// Sine and cosine of one angle lie on the unit circle up to rounding:
/// their squares add up to one whole squared within a few raw units.
pub proof fn lemma_sine_cosine_unit(a: int)
    ensures
        sine(a) * sine(a) + cosine(a) * cosine(a) > SCALE * SCALE - 6 * SCALE - 3,
        sine(a) * sine(a) + cosine(a) * cosine(a) < (SCALE + 2) * (SCALE + 2),
        -SCALE <= sine(a) <= SCALE,
        -SCALE <= cosine(a) <= SCALE,
{
    let e = estimates(a);
    lemma_estimates_are_long(a);
    lemma_normalized_is_unit(e);
    let u = v_normalized(e);
    assert(u.z == 0) by {
        assert(0 * SCALE == 0) by (nonlinear_arith);
        assert(0int / v_norm(e) == 0) by (nonlinear_arith)
            requires
                v_norm(e) > 0,
        ;
    }
    assert(u.z * u.z == 0) by (nonlinear_arith)
        requires
            u.z == 0,
    ;
    assert(e.x * e.x >= 0 && e.y * e.y >= 0 && e.z * e.z >= 0) by (nonlinear_arith);
    lemma_floor_sqrt(v_norm_squared(e));
    lemma_component_within_norm(e, v_norm(e));
    lemma_unit_quotient(e.x, v_norm(e));
    lemma_unit_quotient(e.y, v_norm(e));
}

/// The sine is odd: turning the other way gives the opposite sine.
pub proof fn lemma_sine_odd(a: int)
    ensures
        sine(-a) == -sine(a),
{
    lemma_estimates_mirror(a);
    let e = estimates(a);
    let n = v_norm(e);
    lemma_estimates_are_long(a);
    assert((-e.x) * SCALE == -(e.x * SCALE)) by (nonlinear_arith);
    lemma_quot_odd(e.x * SCALE, n);
}

/// The cosine is even: turning the other way gives the same cosine.
pub proof fn lemma_cosine_even(a: int)
    ensures
        cosine(-a) == cosine(a),
{
    lemma_estimates_mirror(a);
}

/// Turning the other way reverses the estimate of the sine and keeps that
/// of the cosine, and with it the length of the two.
proof fn lemma_estimates_mirror(a: int)
    ensures
        sine_estimate(-a) == -sine_estimate(a),
        cosine_estimate(-a) == cosine_estimate(a),
        v_norm(estimates(-a)) == v_norm(estimates(a)),
{
    let r = wrapped_angle(a);
    assert(wrapped_angle(-a) == -r);
    let x = mirrored_angle(r);
    assert(mirrored_angle(-r) == -x);
    assert((-x) * (-x) == x * x) by (nonlinear_arith);
    let q = sat_mul(x, x);
    let one = SCALE as int;
    let f6 = series_factor(q, one, 156 * SCALE);
    let f5 = series_factor(q, f6, 110 * SCALE);
    let f4 = series_factor(q, f5, 72 * SCALE);
    let f3 = series_factor(q, f4, 42 * SCALE);
    let f2 = series_factor(q, f3, 20 * SCALE);
    let f1 = series_factor(q, f2, 6 * SCALE);
    lemma_sat_mul_odd(x, f1);
    assert(sine_series(-x) == -sine_series(x));
    assert(cosine_series(-x) == cosine_series(x));
    let s = sine_estimate(a);
    assert((-s) * (-s) == s * s) by (nonlinear_arith);
}

/// The sine of zero is zero and its cosine is one.
pub proof fn lemma_zero_angle()
    ensures
        sine(0) == 0,
        cosine(0) == SCALE,
{
    assert(sat_mul(0, 0) == 0);
    assert(sat_div(0, 132 * SCALE) == 0);
    assert(sat_div(0, 90 * SCALE) == 0);
    assert(sat_div(0, 56 * SCALE) == 0);
    assert(sat_div(0, 30 * SCALE) == 0);
    assert(sat_div(0, 12 * SCALE) == 0);
    assert(sat_div(0, 2 * SCALE) == 0);
    assert forall|v: int| #[trigger] sat_mul(0, v) == 0 by {
        assert(0 * v == 0) by (nonlinear_arith);
    }
    assert(sine_estimate(0) == 0);
    assert(cosine_estimate(0) == SCALE);
    let e = estimates(0);
    assert(v_norm_squared(e) == SCALE * SCALE) by (nonlinear_arith)
        requires
            e.x == 0,
            e.y == SCALE,
            e.z == 0,
            v_norm_squared(e) == e.x * e.x + e.y * e.y + e.z * e.z,
    ;
    assert(is_floor_sqrt(SCALE as int, SCALE * SCALE)) by (nonlinear_arith)
        requires
            SCALE == 1_000_000_000,
    ;
    lemma_floor_sqrt_unique(SCALE as int, SCALE * SCALE);
    assert(0 * SCALE == 0 && (SCALE * SCALE) / (SCALE as int) == SCALE) by (nonlinear_arith)
        requires
            SCALE == 1_000_000_000,
    ;
}

fn series_step(square: Fixed, inner: Fixed, divisor: i64) -> (r: Fixed)
    requires
        0 < divisor <= 156 * SCALE,
    ensures
        r@ == series_factor(square@, inner@, divisor as int),
{
    Fixed::one().sub(square.div(Fixed::from_raw(divisor)).mul(inner))
}

fn clamp_unit(v: Fixed) -> (r: Fixed)
    ensures
        r@ == unit_clamped(v@),
{
    if v.gt(Fixed::one()) {
        Fixed::one()
    } else if v.lt(Fixed::one().neg()) {
        Fixed::one().neg()
    } else {
        v
    }
}

/// Drops whole turns from `a`, then mirrors it into the quarter turns on
/// either side of zero; also reports whether it was mirrored.
fn reduce_angle(a: Fixed) -> (r: (Fixed, bool))
    ensures
        r.0@ == mirrored_angle(wrapped_angle(a@)),
        r.1 == beyond_quarter(wrapped_angle(a@)),
{
    let raw: i64 = a.raw();
    let turned: i64 = if raw >= 0 {
        raw % TWO_PI
    } else {
        -((-raw) % TWO_PI)
    };
    let wrapped: i64 = if turned > PI {
        turned - TWO_PI
    } else if turned < -PI {
        turned + TWO_PI
    } else {
        turned
    };
    if wrapped > HALF_PI {
        (Fixed::from_raw(PI - wrapped), true)
    } else if wrapped < -HALF_PI {
        (Fixed::from_raw(-PI - wrapped), true)
    } else {
        (Fixed::from_raw(wrapped), false)
    }
}

/// Sine and cosine of `angle`, each within `[-1, 1]` and together of unit
/// length up to rounding.
pub fn sin_cos(angle: Fixed) -> (r: (Fixed, Fixed))
    ensures
        r.0@ == sine(angle@),
        r.1@ == cosine(angle@),
        -SCALE <= r.0@ <= SCALE,
        -SCALE <= r.1@ <= SCALE,
{
    let (x, mirrored) = reduce_angle(angle);
    let q = x.mul(x);
    let one = Fixed::one();
    let s6 = series_step(q, one, 156_000_000_000);
    let s5 = series_step(q, s6, 110_000_000_000);
    let s4 = series_step(q, s5, 72_000_000_000);
    let s3 = series_step(q, s4, 42_000_000_000);
    let s2 = series_step(q, s3, 20_000_000_000);
    let s1 = series_step(q, s2, 6_000_000_000);
    let sin = clamp_unit(x.mul(s1));
    let c6 = series_step(q, one, 132_000_000_000);
    let c5 = series_step(q, c6, 90_000_000_000);
    let c4 = series_step(q, c5, 56_000_000_000);
    let c3 = series_step(q, c4, 30_000_000_000);
    let c2 = series_step(q, c3, 12_000_000_000);
    let c1 = clamp_unit(series_step(q, c2, 2_000_000_000));
    let cos = if mirrored {
        c1.neg()
    } else {
        c1
    };
    let pair = Vec3::new(sin, cos, Fixed::zero()).normalize();
    (pair.x, pair.y)
}

} // verus!
