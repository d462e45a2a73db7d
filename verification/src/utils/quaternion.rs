//! Orientations as quaternions with fixed-point components.

use vstd::prelude::*;
use crate::utils::fixed::{
    lemma_product_bound, lemma_sat_mul_zero, quot, sat_mul, sat_sub, saturate, Fixed, LIMIT, SCALE,
};
use crate::utils::trig::{cosine, lemma_sine_cosine_unit, lemma_zero_angle, sin_cos, sine};
use crate::utils::vector::{
    floor_sqrt, integer_sqrt, is_floor_sqrt, lemma_floor_sqrt, lemma_square_root_bound,
    lemma_unit_component_square, unit_component, v_add, v_cross, v_dot, v_scale, Vec3, V3,
};

verus! {

/// The mathematical content of a quaternion: the raw values of its
/// components, `w` being the scalar part.
pub struct Q4 {
    pub x: int,
    pub y: int,
    pub z: int,
    pub w: int,
}

/// The quaternion that rotates nothing.
pub open spec fn q_identity() -> Q4 {
    Q4 { x: 0, y: 0, z: 0, w: SCALE as int }
}

/// The conjugate, which undoes the rotation of a unit quaternion.
pub open spec fn q_inverse(q: Q4) -> Q4 {
    Q4 { x: -q.x, y: -q.y, z: -q.z, w: q.w }
}

/// Hamilton product `a * b`: the rotation `b` followed by the rotation `a`.
/// Each component is an exact sum of four products, rescaled once.
pub open spec fn q_mul(a: Q4, b: Q4) -> Q4 {
    Q4 {
        x: saturate(quot(a.w * b.x + a.x * b.w + a.y * b.z - a.z * b.y, SCALE as int)),
        y: saturate(quot(a.w * b.y - a.x * b.z + a.y * b.w + a.z * b.x, SCALE as int)),
        z: saturate(quot(a.w * b.z + a.x * b.y - a.y * b.x + a.z * b.w, SCALE as int)),
        w: saturate(quot(a.w * b.w - a.x * b.x - a.y * b.y - a.z * b.z, SCALE as int)),
    }
}

/// The vector part of a quaternion.
pub open spec fn q_axis(q: Q4) -> V3 {
    V3 { x: q.x, y: q.y, z: q.z }
}

/// The vector `v` rotated by `q`:
/// `v (w^2 - b.b) + b (2 (v.b)) + (b x v) (2 w)` with `b` the vector part.
pub open spec fn q_rotate(q: Q4, v: V3) -> V3 {
    let b = q_axis(q);
    let kept = v_scale(v, sat_sub(sat_mul(q.w, q.w), v_dot(b, b)));
    let along = v_scale(b, saturate(2 * v_dot(v, b)));
    let around = v_scale(v_cross(b, v), saturate(2 * q.w));
    v_add(v_add(kept, along), around)
}

/// Half, in raw units.
pub const HALF: i64 = 500_000_000;

/// The rotation by `angle` radians about the first axis.
pub open spec fn q_rotation_x(angle: int) -> Q4 {
    let half = sat_mul(angle, HALF as int);
    Q4 { x: sine(half), y: 0, z: 0, w: cosine(half) }
}

/// The rotation by `angle` radians about the second axis.
pub open spec fn q_rotation_y(angle: int) -> Q4 {
    let half = sat_mul(angle, HALF as int);
    Q4 { x: 0, y: sine(half), z: 0, w: cosine(half) }
}

/// Sum of the squares of the four components.
pub open spec fn q_squares(q: Q4) -> int {
    q.x * q.x + q.y * q.y + q.z * q.z + q.w * q.w
}

/// Length of a quaternion, rounded down to a raw unit.
pub open spec fn q_norm(q: Q4) -> int {
    floor_sqrt(q_squares(q))
}

/// The quaternion scaled to unit length, each component rounded toward
/// zero. A quaternion shorter than one raw unit stands for no rotation.
pub open spec fn q_normalized(q: Q4) -> Q4 {
    let n = q_norm(q);
    if n == 0 {
        q_identity()
    } else {
        Q4 {
            x: quot(q.x * SCALE, n),
            y: quot(q.y * SCALE, n),
            z: quot(q.z * SCALE, n),
            w: quot(q.w * SCALE, n),
        }
    }
}

/// Whether a quaternion has unit length up to rounding: the squares of its
/// components add up to one whole squared within a few raw units.
pub open spec fn near_unit(q: Q4) -> bool {
    SCALE * SCALE - 8 * SCALE - 4 < q_squares(q) < (SCALE + 2) * (SCALE + 2)
}

/// The identity has unit length.
pub proof fn lemma_identity_is_unit()
    ensures
        near_unit(q_identity()),
{
    assert(q_squares(q_identity()) == SCALE * SCALE) by (nonlinear_arith)
        requires
            q_squares(q_identity()) == 0 * 0 + 0 * 0 + 0 * 0 + SCALE * SCALE,
    ;
    assert(SCALE * SCALE < (SCALE + 2) * (SCALE + 2)) by (nonlinear_arith)
        requires
            SCALE > 0,
    ;
}

/// A rotation about an axis has unit length up to rounding, whatever the
/// angle.
pub proof fn lemma_axis_rotation_is_unit(angle: int)
    ensures
        near_unit(q_rotation_x(angle)),
        near_unit(q_rotation_y(angle)),
{
    let half = sat_mul(angle, HALF as int);
    lemma_sine_cosine_unit(half);
    let s = sine(half);
    let c = cosine(half);
    assert(q_squares(q_rotation_x(angle)) == s * s + c * c && q_squares(q_rotation_y(angle)) == s
        * s + c * c) by (nonlinear_arith)
        requires
            q_squares(q_rotation_x(angle)) == s * s + 0 * 0 + 0 * 0 + c * c,
            q_squares(q_rotation_y(angle)) == 0 * 0 + s * s + 0 * 0 + c * c,
    ;
}

/// A quaternion brought to unit length has unit length up to rounding,
/// provided it was at least half a whole long; one with no length at all
/// becomes the identity.
pub proof fn lemma_normalized_quaternion_is_unit(q: Q4)
    requires
        2 * q_norm(q) >= SCALE || q_norm(q) == 0,
    ensures
        near_unit(q_normalized(q)),
{
    let n = q_norm(q);
    if n == 0 {
        lemma_identity_is_unit();
    } else {
        let u = q_normalized(q);
        assert(q.x * q.x >= 0 && q.y * q.y >= 0 && q.z * q.z >= 0 && q.w * q.w >= 0)
            by (nonlinear_arith);
        let total = q_squares(q);
        lemma_floor_sqrt(total);
        lemma_square_root_bound(q.x, q.y * q.y + q.z * q.z + q.w * q.w, n);
        lemma_square_root_bound(q.y, q.x * q.x + q.z * q.z + q.w * q.w, n);
        lemma_square_root_bound(q.z, q.x * q.x + q.y * q.y + q.w * q.w, n);
        lemma_square_root_bound(q.w, q.x * q.x + q.y * q.y + q.z * q.z, n);
        lemma_unit_component_square(q.x, n);
        lemma_unit_component_square(q.y, n);
        lemma_unit_component_square(q.z, n);
        lemma_unit_component_square(q.w, n);
        let mx = if u.x >= 0 { u.x } else { -u.x };
        let my = if u.y >= 0 { u.y } else { -u.y };
        let mz = if u.z >= 0 { u.z } else { -u.z };
        let mw = if u.w >= 0 { u.w } else { -u.w };
        let s2 = SCALE * SCALE;
        let n2 = n * n;
        let n1 = (n + 1) * (n + 1);
        let sq = mx * mx + my * my + mz * mz + mw * mw;
        let up = (mx + 1) * (mx + 1) + (my + 1) * (my + 1) + (mz + 1) * (mz + 1) + (mw + 1) * (mw
            + 1);
        assert(q_squares(u) == sq);
        assert(sq * n2 == (mx * mx) * n2 + (my * my) * n2 + (mz * mz) * n2 + (mw * mw) * n2)
            by (nonlinear_arith)
            requires
                sq == mx * mx + my * my + mz * mz + mw * mw,
        ;
        assert(total * s2 == (q.x * q.x) * s2 + (q.y * q.y) * s2 + (q.z * q.z) * s2 + (q.w * q.w)
            * s2) by (nonlinear_arith)
            requires
                total == q.x * q.x + q.y * q.y + q.z * q.z + q.w * q.w,
        ;
        assert(up * n2 == ((mx + 1) * (mx + 1)) * n2 + ((my + 1) * (my + 1)) * n2 + ((mz + 1) * (mz
            + 1)) * n2 + ((mw + 1) * (mw + 1)) * n2) by (nonlinear_arith)
            requires
                up == (mx + 1) * (mx + 1) + (my + 1) * (my + 1) + (mz + 1) * (mz + 1) + (mw + 1)
                    * (mw + 1),
        ;
        assert(sq * n2 <= total * s2 && total * s2 < up * n2);
        assert(n2 > 0 && s2 > 0) by (nonlinear_arith)
            requires
                n > 0,
                n2 == n * n,
                s2 == SCALE * SCALE,
                SCALE > 0,
        ;
        assert(n2 * s2 <= total * s2 && total * s2 < n1 * s2) by (nonlinear_arith)
            requires
                n2 <= total,
                total < n1,
                s2 > 0,
        ;
        assert(up > s2) by (nonlinear_arith)
            requires
                n2 * s2 < up * n2,
                n2 > 0,
        ;
        assert(up == sq + 2 * (mx + my + mz + mw) + 4) by (nonlinear_arith)
            requires
                sq == mx * mx + my * my + mz * mz + mw * mw,
                up == (mx + 1) * (mx + 1) + (my + 1) * (my + 1) + (mz + 1) * (mz + 1) + (mw + 1)
                    * (mw + 1),
        ;
        let w = (SCALE + 2) * (SCALE + 2);
        assert(s2 * n1 <= n2 * w) by (nonlinear_arith)
            requires
                2 * n >= SCALE,
                n > 0,
                SCALE > 0,
                s2 == SCALE * SCALE,
                n1 == (n + 1) * (n + 1),
                n2 == n * n,
                w == (SCALE + 2) * (SCALE + 2),
        ;
        assert(sq < w) by (nonlinear_arith)
            requires
                sq * n2 <= total * s2,
                total * s2 < n1 * s2,
                s2 * n1 <= n2 * w,
                n2 > 0,
        ;
    }
}

/// The four sums of products that a product is made of, before they are
/// brought back to scale.
pub open spec fn q_mul_exact(a: Q4, b: Q4) -> Q4 {
    Q4 {
        x: a.w * b.x + a.x * b.w + a.y * b.z - a.z * b.y,
        y: a.w * b.y - a.x * b.z + a.y * b.w + a.z * b.x,
        z: a.w * b.z + a.x * b.y - a.y * b.x + a.z * b.w,
        w: a.w * b.w - a.x * b.x - a.y * b.y - a.z * b.z,
    }
}

/// Lengths multiply: before rounding, the squared length of a product is
/// the product of the squared lengths of its factors.
pub proof fn lemma_four_squares(a: Q4, b: Q4)
    ensures
        q_squares(q_mul_exact(a, b)) == q_squares(a) * q_squares(b),
{
    let pww = a.w * b.w;
    let pwx = a.w * b.x;
    let pwy = a.w * b.y;
    let pwz = a.w * b.z;
    let pxw = a.x * b.w;
    let pxx = a.x * b.x;
    let pxy = a.x * b.y;
    let pxz = a.x * b.z;
    let pyw = a.y * b.w;
    let pyx = a.y * b.x;
    let pyy = a.y * b.y;
    let pyz = a.y * b.z;
    let pzw = a.z * b.w;
    let pzx = a.z * b.x;
    let pzy = a.z * b.y;
    let pzz = a.z * b.z;
    let ex = pwx + pxw + pyz - pzy;
    let ey = pwy - pxz + pyw + pzx;
    let ez = pwz + pxy - pyx + pzw;
    let ew = pww - pxx - pyy - pzz;
    assert(ex * ex == pwx * pwx + pxw * pxw + pyz * pyz + pzy * pzy
        + 2 * (pwx * pxw + pwx * pyz - pwx * pzy + pxw * pyz - pxw * pzy - pyz * pzy))
        by (nonlinear_arith)
        requires
            ex == pwx + pxw + pyz - pzy,
    ;
    assert(ey * ey == pwy * pwy + pxz * pxz + pyw * pyw + pzx * pzx
        + 2 * (-(pwy * pxz) + pwy * pyw + pwy * pzx - pxz * pyw - pxz * pzx + pyw * pzx))
        by (nonlinear_arith)
        requires
            ey == pwy - pxz + pyw + pzx,
    ;
    assert(ez * ez == pwz * pwz + pxy * pxy + pyx * pyx + pzw * pzw
        + 2 * (pwz * pxy - pwz * pyx + pwz * pzw - pxy * pyx + pxy * pzw - pyx * pzw))
        by (nonlinear_arith)
        requires
            ez == pwz + pxy - pyx + pzw,
    ;
    assert(ew * ew == pww * pww + pxx * pxx + pyy * pyy + pzz * pzz
        + 2 * (-(pww * pxx) - pww * pyy - pww * pzz + pxx * pyy + pxx * pzz + pyy * pzz))
        by (nonlinear_arith)
        requires
            ew == pww - pxx - pyy - pzz,
    ;
    assert(pwx * pxw == pww * pxx) by (nonlinear_arith)
        requires
            pww == a.w * b.w,
            pwx == a.w * b.x,
            pxw == a.x * b.w,
            pxx == a.x * b.x,
    ;
    assert(pwx * pyz == pwz * pyx) by (nonlinear_arith)
        requires
            pwx == a.w * b.x,
            pwz == a.w * b.z,
            pyx == a.y * b.x,
            pyz == a.y * b.z,
    ;
    assert(pwx * pzy == pwy * pzx) by (nonlinear_arith)
        requires
            pwx == a.w * b.x,
            pwy == a.w * b.y,
            pzx == a.z * b.x,
            pzy == a.z * b.y,
    ;
    assert(pxw * pyz == pxz * pyw) by (nonlinear_arith)
        requires
            pxw == a.x * b.w,
            pxz == a.x * b.z,
            pyw == a.y * b.w,
            pyz == a.y * b.z,
    ;
    assert(pxw * pzy == pxy * pzw) by (nonlinear_arith)
        requires
            pxw == a.x * b.w,
            pxy == a.x * b.y,
            pzw == a.z * b.w,
            pzy == a.z * b.y,
    ;
    assert(pyz * pzy == pyy * pzz) by (nonlinear_arith)
        requires
            pyy == a.y * b.y,
            pyz == a.y * b.z,
            pzy == a.z * b.y,
            pzz == a.z * b.z,
    ;
    assert(pwy * pxz == pwz * pxy) by (nonlinear_arith)
        requires
            pwy == a.w * b.y,
            pwz == a.w * b.z,
            pxy == a.x * b.y,
            pxz == a.x * b.z,
    ;
    assert(pwy * pyw == pww * pyy) by (nonlinear_arith)
        requires
            pww == a.w * b.w,
            pwy == a.w * b.y,
            pyw == a.y * b.w,
            pyy == a.y * b.y,
    ;
    assert(pxz * pzx == pxx * pzz) by (nonlinear_arith)
        requires
            pxx == a.x * b.x,
            pxz == a.x * b.z,
            pzx == a.z * b.x,
            pzz == a.z * b.z,
    ;
    assert(pyw * pzx == pyx * pzw) by (nonlinear_arith)
        requires
            pyw == a.y * b.w,
            pyx == a.y * b.x,
            pzw == a.z * b.w,
            pzx == a.z * b.x,
    ;
    assert(pwz * pzw == pww * pzz) by (nonlinear_arith)
        requires
            pww == a.w * b.w,
            pwz == a.w * b.z,
            pzw == a.z * b.w,
            pzz == a.z * b.z,
    ;
    assert(pxy * pyx == pxx * pyy) by (nonlinear_arith)
        requires
            pxx == a.x * b.x,
            pxy == a.x * b.y,
            pyx == a.y * b.x,
            pyy == a.y * b.y,
    ;
    let nb = q_squares(b);
    let aw2 = a.w * a.w;
    let bw2 = b.w * b.w;
    let ax2 = a.x * a.x;
    let bx2 = b.x * b.x;
    let ay2 = a.y * a.y;
    let by2 = b.y * b.y;
    let az2 = a.z * a.z;
    let bz2 = b.z * b.z;
    assert(pww * pww == aw2 * bw2) by (nonlinear_arith)
        requires
            pww == a.w * b.w,
            aw2 == a.w * a.w,
            bw2 == b.w * b.w,
    ;
    assert(pwx * pwx == aw2 * bx2) by (nonlinear_arith)
        requires
            pwx == a.w * b.x,
            aw2 == a.w * a.w,
            bx2 == b.x * b.x,
    ;
    assert(pwy * pwy == aw2 * by2) by (nonlinear_arith)
        requires
            pwy == a.w * b.y,
            aw2 == a.w * a.w,
            by2 == b.y * b.y,
    ;
    assert(pwz * pwz == aw2 * bz2) by (nonlinear_arith)
        requires
            pwz == a.w * b.z,
            aw2 == a.w * a.w,
            bz2 == b.z * b.z,
    ;
    assert(pxw * pxw == ax2 * bw2) by (nonlinear_arith)
        requires
            pxw == a.x * b.w,
            ax2 == a.x * a.x,
            bw2 == b.w * b.w,
    ;
    assert(pxx * pxx == ax2 * bx2) by (nonlinear_arith)
        requires
            pxx == a.x * b.x,
            ax2 == a.x * a.x,
            bx2 == b.x * b.x,
    ;
    assert(pxy * pxy == ax2 * by2) by (nonlinear_arith)
        requires
            pxy == a.x * b.y,
            ax2 == a.x * a.x,
            by2 == b.y * b.y,
    ;
    assert(pxz * pxz == ax2 * bz2) by (nonlinear_arith)
        requires
            pxz == a.x * b.z,
            ax2 == a.x * a.x,
            bz2 == b.z * b.z,
    ;
    assert(pyw * pyw == ay2 * bw2) by (nonlinear_arith)
        requires
            pyw == a.y * b.w,
            ay2 == a.y * a.y,
            bw2 == b.w * b.w,
    ;
    assert(pyx * pyx == ay2 * bx2) by (nonlinear_arith)
        requires
            pyx == a.y * b.x,
            ay2 == a.y * a.y,
            bx2 == b.x * b.x,
    ;
    assert(pyy * pyy == ay2 * by2) by (nonlinear_arith)
        requires
            pyy == a.y * b.y,
            ay2 == a.y * a.y,
            by2 == b.y * b.y,
    ;
    assert(pyz * pyz == ay2 * bz2) by (nonlinear_arith)
        requires
            pyz == a.y * b.z,
            ay2 == a.y * a.y,
            bz2 == b.z * b.z,
    ;
    assert(pzw * pzw == az2 * bw2) by (nonlinear_arith)
        requires
            pzw == a.z * b.w,
            az2 == a.z * a.z,
            bw2 == b.w * b.w,
    ;
    assert(pzx * pzx == az2 * bx2) by (nonlinear_arith)
        requires
            pzx == a.z * b.x,
            az2 == a.z * a.z,
            bx2 == b.x * b.x,
    ;
    assert(pzy * pzy == az2 * by2) by (nonlinear_arith)
        requires
            pzy == a.z * b.y,
            az2 == a.z * a.z,
            by2 == b.y * b.y,
    ;
    assert(pzz * pzz == az2 * bz2) by (nonlinear_arith)
        requires
            pzz == a.z * b.z,
            az2 == a.z * a.z,
            bz2 == b.z * b.z,
    ;
    assert(aw2 * nb == aw2 * bw2 + aw2 * bx2 + aw2 * by2 + aw2 * bz2)
        by (nonlinear_arith)
        requires
            nb == bx2 + by2 + bz2 + bw2,
    ;
    assert(ax2 * nb == ax2 * bw2 + ax2 * bx2 + ax2 * by2 + ax2 * bz2)
        by (nonlinear_arith)
        requires
            nb == bx2 + by2 + bz2 + bw2,
    ;
    assert(ay2 * nb == ay2 * bw2 + ay2 * bx2 + ay2 * by2 + ay2 * bz2)
        by (nonlinear_arith)
        requires
            nb == bx2 + by2 + bz2 + bw2,
    ;
    assert(az2 * nb == az2 * bw2 + az2 * bx2 + az2 * by2 + az2 * bz2)
        by (nonlinear_arith)
        requires
            nb == bx2 + by2 + bz2 + bw2,
    ;
    assert(q_squares(a) * nb == ax2 * nb + ay2 * nb + az2 * nb + aw2 * nb)
        by (nonlinear_arith)
        requires
            q_squares(a) == ax2 + ay2 + az2 + aw2,
    ;
    assert(q_squares(q_mul_exact(a, b)) == ex * ex + ey * ey + ez * ez + ew * ew);
}


/// One sum of products `e` brought back to scale: the square of the
/// result, at scale, brackets the square of `e`.
proof fn lemma_rescaled_square(e: int)
    ensures
        ({
            let p = quot(e, SCALE as int);
            let m = if p >= 0 { p } else { -p };
            &&& p * p == m * m
            &&& (m * m) * (SCALE * SCALE) <= e * e
            &&& e * e < ((m + 1) * (m + 1)) * (SCALE * SCALE)
        }),
{
    let p = quot(e, SCALE as int);
    let m = if p >= 0 { p } else { -p };
    let a = if e >= 0 { e } else { -e };
    vstd::arithmetic::div_mod::lemma_fundamental_div_mod(a, SCALE as int);
    vstd::arithmetic::div_mod::lemma_div_is_ordered(0, a, SCALE as int);
    let r = a % (SCALE as int);
    assert(m == a / (SCALE as int));
    assert(p * p == m * m) by (nonlinear_arith)
        requires
            m == p || m == -p,
    ;
    assert(e * e == a * a) by (nonlinear_arith)
        requires
            a == e || a == -e,
    ;
    assert((m * m) * (SCALE * SCALE) <= a * a && a * a < ((m + 1) * (m + 1)) * (SCALE * SCALE))
        by (nonlinear_arith)
        requires
            a == SCALE * m + r,
            0 <= r < SCALE,
            0 <= m,
    ;
}

/// Lengths multiply up to rounding: at scale, the squared length of a
/// product lies just below the product of the squared lengths of its
/// factors, by no more than rounding each component takes away.
pub proof fn lemma_product_length(a: Q4, b: Q4)
    requires
        q_squares(a) * q_squares(b) <= 16 * ((SCALE * SCALE) * (SCALE * SCALE)),
    ensures
        q_squares(q_mul(a, b)) * (SCALE * SCALE) <= q_squares(a) * q_squares(b),
        q_squares(a) * q_squares(b) < (q_squares(q_mul(a, b)) + 32 * SCALE + 4) * (SCALE * SCALE),
{
    let e = q_mul_exact(a, b);
    let p = q_mul(a, b);
    let s2 = SCALE * SCALE;
    let total = q_squares(a) * q_squares(b);
    lemma_four_squares(a, b);
    assert(e.x * e.x >= 0 && e.y * e.y >= 0 && e.z * e.z >= 0 && e.w * e.w >= 0)
        by (nonlinear_arith);
    assert(s2 == 1_000_000_000_000_000_000) by (nonlinear_arith)
        requires
            s2 == SCALE * SCALE,
            SCALE == 1_000_000_000,
    ;
    assert(s2 * s2 == 1_000_000_000_000_000_000_000_000_000_000_000_000) by (nonlinear_arith)
        requires
            s2 == 1_000_000_000_000_000_000,
    ;
    lemma_rescaled_square(e.x);
    lemma_rescaled_square(e.y);
    lemma_rescaled_square(e.z);
    lemma_rescaled_square(e.w);
    let qx = quot(e.x, SCALE as int);
    let qy = quot(e.y, SCALE as int);
    let qz = quot(e.z, SCALE as int);
    let qw = quot(e.w, SCALE as int);
    let mx = if qx >= 0 { qx } else { -qx };
    let my = if qy >= 0 { qy } else { -qy };
    let mz = if qz >= 0 { qz } else { -qz };
    let mw = if qw >= 0 { qw } else { -qw };
    lemma_small_square(mx, s2, e.x * e.x);
    lemma_small_square(my, s2, e.y * e.y);
    lemma_small_square(mz, s2, e.z * e.z);
    lemma_small_square(mw, s2, e.w * e.w);
    assert(p.x == qx && p.y == qy && p.z == qz && p.w == qw);
    let sq = mx * mx + my * my + mz * mz + mw * mw;
    let up = (mx + 1) * (mx + 1) + (my + 1) * (my + 1) + (mz + 1) * (mz + 1) + (mw + 1) * (mw + 1);
    assert(q_squares(p) == sq);
    assert(sq * s2 == (mx * mx) * s2 + (my * my) * s2 + (mz * mz) * s2 + (mw * mw) * s2)
        by (nonlinear_arith)
        requires
            sq == mx * mx + my * my + mz * mz + mw * mw,
    ;
    assert(up * s2 == ((mx + 1) * (mx + 1)) * s2 + ((my + 1) * (my + 1)) * s2 + ((mz + 1) * (mz
        + 1)) * s2 + ((mw + 1) * (mw + 1)) * s2) by (nonlinear_arith)
        requires
            up == (mx + 1) * (mx + 1) + (my + 1) * (my + 1) + (mz + 1) * (mz + 1) + (mw + 1) * (mw
                + 1),
    ;
    assert(up == sq + 2 * (mx + my + mz + mw) + 4) by (nonlinear_arith)
        requires
            sq == mx * mx + my * my + mz * mz + mw * mw,
            up == (mx + 1) * (mx + 1) + (my + 1) * (my + 1) + (mz + 1) * (mz + 1) + (mw + 1) * (mw
                + 1),
    ;
    assert(total < up * s2);
    assert(up * s2 <= (sq + 32 * SCALE + 4) * s2) by (nonlinear_arith)
        requires
            up <= sq + 32 * SCALE + 4,
            s2 > 0,
    ;
}

/// A number whose square at scale stays below sixteen wholes to the
/// fourth is at most four wholes.
proof fn lemma_small_square(m: int, s2: int, bound: int)
    requires
        0 <= m,
        s2 == 1_000_000_000_000_000_000,
        (m * m) * s2 <= bound,
    ensures
        bound <= 16 * (s2 * s2) ==> m <= 4 * SCALE,
{
    if bound <= 16 * (s2 * s2) {
        assert(m <= 4_000_000_000) by (nonlinear_arith)
            requires
                0 <= m,
                s2 == 1_000_000_000_000_000_000,
                (m * m) * s2 <= 16 * (s2 * s2),
        ;
    }
}

/// An orientation in space.
#[derive(Clone, Copy, Debug, PartialEq, Eq, Structural)]
pub struct Quat {
    pub x: Fixed,
    pub y: Fixed,
    pub z: Fixed,
    pub w: Fixed,
}

impl View for Quat {
    type V = Q4;

    open spec fn view(&self) -> Q4 {
        Q4 { x: self.x@, y: self.y@, z: self.z@, w: self.w@ }
    }
}

/// `a * b + c * d + e * f + g * h` brought back to scale, with a sign for
/// each of the last three products.
fn four_products(
    a: Fixed,
    b: Fixed,
    c: Fixed,
    d: Fixed,
    plus_cd: bool,
    e: Fixed,
    f: Fixed,
    plus_ef: bool,
    g: Fixed,
    h: Fixed,
    plus_gh: bool,
) -> (r: Fixed)
    ensures
        r@ == saturate(
            quot(
                a@ * b@ + (if plus_cd { c@ * d@ } else { -(c@ * d@) }) + (if plus_ef {
                    e@ * f@
                } else {
                    -(e@ * f@)
                }) + (if plus_gh { g@ * h@ } else { -(g@ * h@) }),
                SCALE as int,
            ),
        ),
{
    proof {
        use_type_invariant(&a);
        use_type_invariant(&b);
        use_type_invariant(&c);
        use_type_invariant(&d);
        use_type_invariant(&e);
        use_type_invariant(&f);
        use_type_invariant(&g);
        use_type_invariant(&h);
        lemma_product_bound(a@, b@, LIMIT as int, LIMIT as int);
        lemma_product_bound(c@, d@, LIMIT as int, LIMIT as int);
        lemma_product_bound(e@, f@, LIMIT as int, LIMIT as int);
        lemma_product_bound(g@, h@, LIMIT as int, LIMIT as int);
    }
    let ab: i128 = a.raw() as i128 * b.raw() as i128;
    let cd: i128 = c.raw() as i128 * d.raw() as i128;
    let ef: i128 = e.raw() as i128 * f.raw() as i128;
    let gh: i128 = g.raw() as i128 * h.raw() as i128;
    let s1: i128 = if plus_cd { ab + cd } else { ab - cd };
    let s2: i128 = if plus_ef { s1 + ef } else { s1 - ef };
    let s: i128 = if plus_gh { s2 + gh } else { s2 - gh };
    if s >= 0 {
        Fixed::clamped(s / (SCALE as i128))
    } else {
        Fixed::clamped(-((-s) / (SCALE as i128)))
    }
}

impl Quat {
    /// The quaternion with the given components.
    pub fn new(x: Fixed, y: Fixed, z: Fixed, w: Fixed) -> (r: Quat)
        ensures
            r.x == x,
            r.y == y,
            r.z == z,
            r.w == w,
    {
        Quat { x, y, z, w }
    }

    /// The quaternion that rotates nothing.
    pub fn identity() -> (r: Quat)
        ensures
            r@ == q_identity(),
    {
        Quat { x: Fixed::zero(), y: Fixed::zero(), z: Fixed::zero(), w: Fixed::one() }
    }

    /// The rotation by `angle` radians about the first axis.
    pub fn from_rotation_x(angle: Fixed) -> (r: Quat)
        ensures
            r@ == q_rotation_x(angle@),
            angle@ == 0 ==> r@ == q_identity(),
    {
        proof {
            lemma_sat_mul_zero(HALF as int);
            lemma_zero_angle();
        }
        let (s, c) = sin_cos(angle.mul(Fixed::from_raw(HALF)));
        Quat { x: s, y: Fixed::zero(), z: Fixed::zero(), w: c }
    }

    /// The rotation by `angle` radians about the second axis.
    pub fn from_rotation_y(angle: Fixed) -> (r: Quat)
        ensures
            r@ == q_rotation_y(angle@),
            angle@ == 0 ==> r@ == q_identity(),
    {
        proof {
            lemma_sat_mul_zero(HALF as int);
            lemma_zero_angle();
        }
        let (s, c) = sin_cos(angle.mul(Fixed::from_raw(HALF)));
        Quat { x: Fixed::zero(), y: s, z: Fixed::zero(), w: c }
    }

    /// Length before saturation, in raw units.
    fn norm(self) -> (r: i128)
        ensures
            r == q_norm(self@),
            is_floor_sqrt(r as int, q_squares(self@)),
            0 <= r <= 2 * LIMIT,
    {
        proof {
            use_type_invariant(&self.x);
            use_type_invariant(&self.y);
            use_type_invariant(&self.z);
            use_type_invariant(&self.w);
            lemma_product_bound(self.x@, self.x@, LIMIT as int, LIMIT as int);
            lemma_product_bound(self.y@, self.y@, LIMIT as int, LIMIT as int);
            lemma_product_bound(self.z@, self.z@, LIMIT as int, LIMIT as int);
            lemma_product_bound(self.w@, self.w@, LIMIT as int, LIMIT as int);
            assert(self.x@ * self.x@ >= 0 && self.y@ * self.y@ >= 0 && self.z@ * self.z@ >= 0
                && self.w@ * self.w@ >= 0) by (nonlinear_arith);
        }
        let xx: i128 = self.x.raw() as i128 * self.x.raw() as i128;
        let yy: i128 = self.y.raw() as i128 * self.y.raw() as i128;
        let zz: i128 = self.z.raw() as i128 * self.z.raw() as i128;
        let ww: i128 = self.w.raw() as i128 * self.w.raw() as i128;
        let total: i128 = xx + yy + zz + ww;
        let root: u128 = integer_sqrt(total as u128);
        assert(root <= 2 * LIMIT) by (nonlinear_arith)
            requires
                root * root <= total,
                total <= 4 * (LIMIT * LIMIT),
                LIMIT == 1_000_000_000_000_000_000,
                root >= 0,
        ;
        root as i128
    }

    /// Length, rounded down and saturated.
    pub fn length(self) -> (r: Fixed)
        ensures
            r@ == saturate(q_norm(self@)),
            r@ >= 0,
    {
        Fixed::clamped(self.norm())
    }

    /// The quaternion scaled to unit length; the identity for one with no
    /// length.
    pub fn normalize(self) -> (r: Quat)
        ensures
            r@ == q_normalized(self@),
    {
        let n: i128 = self.norm();
        if n == 0 {
            Quat::identity()
        } else {
            proof {
                let q = self@;
                assert(q.x * q.x >= 0 && q.y * q.y >= 0 && q.z * q.z >= 0 && q.w * q.w >= 0)
                    by (nonlinear_arith);
                lemma_square_root_bound(q.x, q.y * q.y + q.z * q.z + q.w * q.w, n as int);
                lemma_square_root_bound(q.y, q.x * q.x + q.z * q.z + q.w * q.w, n as int);
                lemma_square_root_bound(q.z, q.x * q.x + q.y * q.y + q.w * q.w, n as int);
                lemma_square_root_bound(q.w, q.x * q.x + q.y * q.y + q.z * q.z, n as int);
            }
            Quat {
                x: unit_component(self.x, n),
                y: unit_component(self.y, n),
                z: unit_component(self.z, n),
                w: unit_component(self.w, n),
            }
        }
    }

    /// The conjugate.
    pub fn inverse(self) -> (r: Quat)
        ensures
            r@ == q_inverse(self@),
    {
        Quat { x: self.x.neg(), y: self.y.neg(), z: self.z.neg(), w: self.w }
    }

    /// Hamilton product `self * other`.
    pub fn mul(self, other: Quat) -> (r: Quat)
        ensures
            r@ == q_mul(self@, other@),
    {
        let a = self;
        let b = other;
        Quat {
            x: four_products(a.w, b.x, a.x, b.w, true, a.y, b.z, true, a.z, b.y, false),
            y: four_products(a.w, b.y, a.x, b.z, false, a.y, b.w, true, a.z, b.x, true),
            z: four_products(a.w, b.z, a.x, b.y, true, a.y, b.x, false, a.z, b.w, true),
            w: four_products(a.w, b.w, a.x, b.x, false, a.y, b.y, false, a.z, b.z, false),
        }
    }

    /// The vector `v` rotated by this quaternion.
    pub fn rotate(self, v: Vec3) -> (r: Vec3)
        ensures
            r@ == q_rotate(self@, v@),
    {
        let b = Vec3 { x: self.x, y: self.y, z: self.z };
        let kept = v.scale(self.w.mul(self.w).sub(b.dot(b)));
        let along = b.scale(v.dot(b).twice());
        let around = b.cross(v).scale(self.w.twice());
        kept.add(along).add(around)
    }
}

} // verus!
