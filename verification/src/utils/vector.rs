//! Three-dimensional vectors of fixed-point numbers.

use vstd::prelude::*;
use crate::utils::fixed::{
    lemma_product_bound, quot, sat_add, sat_div, sat_mul, sat_sub, saturate, Fixed, LIMIT, SCALE,
};

verus! {

/// Whether `r` is the integer square root of `n`: the largest natural number
/// whose square does not exceed `n`.
pub open spec fn is_floor_sqrt(r: int, n: int) -> bool {
    0 <= r && r * r <= n && n < (r + 1) * (r + 1)
}

/// The integer square root of `n`, for `n >= 0`.
pub open spec fn floor_sqrt(n: int) -> int {
    choose|r: int| is_floor_sqrt(r, n)
}

/// The integer square root is unique, so any witness is `floor_sqrt(n)`.
pub proof fn lemma_floor_sqrt_unique(r: int, n: int)
    requires
        is_floor_sqrt(r, n),
    ensures
        floor_sqrt(n) == r,
{
    let c = floor_sqrt(n);
    assert(is_floor_sqrt(c, n));
    assert(c == r) by (nonlinear_arith)
        requires
            is_floor_sqrt(c, n),
            is_floor_sqrt(r, n),
    ;
}

/// Integer square root of any 128-bit natural number.
pub fn integer_sqrt(n: u128) -> (r: u128)
    ensures
        r == floor_sqrt(n as int),
        is_floor_sqrt(r as int, n as int),
        r < 0x1_0000_0000_0000_0000,
{
    let mut lo: u128 = 0;
    let mut hi: u128 = 0x1_0000_0000_0000_0000;
    assert(0x1_0000_0000_0000_0000int * 0x1_0000_0000_0000_0000int
        == 0x1_0000_0000_0000_0000_0000_0000_0000_0000int) by (nonlinear_arith);
    while hi - lo > 1
        invariant
            lo < hi <= 0x1_0000_0000_0000_0000,
            lo * lo <= n < hi * hi,
        decreases hi - lo,
    {
        let mid: u128 = lo + (hi - lo) / 2;
        proof {
            lemma_product_bound(
                mid as int,
                mid as int,
                0xffff_ffff_ffff_ffff,
                0xffff_ffff_ffff_ffff,
            );
        }
        if mid * mid <= n {
            lo = mid;
        } else {
            hi = mid;
        }
    }
    proof {
        lemma_floor_sqrt_unique(lo as int, n as int);
    }
    lo
}

/// The mathematical content of a vector: the raw values of its components.
pub struct V3 {
    pub x: int,
    pub y: int,
    pub z: int,
}

/// The zero vector.
pub open spec fn v_zero() -> V3 {
    V3 { x: 0, y: 0, z: 0 }
}

/// Component-wise saturating sum.
pub open spec fn v_add(a: V3, b: V3) -> V3 {
    V3 { x: sat_add(a.x, b.x), y: sat_add(a.y, b.y), z: sat_add(a.z, b.z) }
}

/// Component-wise saturating difference.
pub open spec fn v_sub(a: V3, b: V3) -> V3 {
    V3 { x: sat_sub(a.x, b.x), y: sat_sub(a.y, b.y), z: sat_sub(a.z, b.z) }
}

/// Component-wise negation.
pub open spec fn v_neg(a: V3) -> V3 {
    V3 { x: -a.x, y: -a.y, z: -a.z }
}

/// Each component multiplied by the scalar `s`.
pub open spec fn v_scale(a: V3, s: int) -> V3 {
    V3 { x: sat_mul(a.x, s), y: sat_mul(a.y, s), z: sat_mul(a.z, s) }
}

/// Each component divided by the scalar `s`.
pub open spec fn v_unscale(a: V3, s: int) -> V3 {
    V3 { x: sat_div(a.x, s), y: sat_div(a.y, s), z: sat_div(a.z, s) }
}

/// Dot product: the exact sum of products, rescaled once and saturated.
pub open spec fn v_dot(a: V3, b: V3) -> int {
    saturate(quot(a.x * b.x + a.y * b.y + a.z * b.z, SCALE as int))
}

/// Cross product: each component an exact difference of products,
/// rescaled once and saturated.
pub open spec fn v_cross(a: V3, b: V3) -> V3 {
    V3 {
        x: saturate(quot(a.y * b.z - a.z * b.y, SCALE as int)),
        y: saturate(quot(a.z * b.x - a.x * b.z, SCALE as int)),
        z: saturate(quot(a.x * b.y - a.y * b.x, SCALE as int)),
    }
}

/// Sum of the squares of the raw components.
pub open spec fn v_norm_squared(a: V3) -> int {
    a.x * a.x + a.y * a.y + a.z * a.z
}

/// Euclidean length before saturation, rounded down to a raw unit.
pub open spec fn v_norm(a: V3) -> int {
    floor_sqrt(v_norm_squared(a))
}

/// Euclidean length, rounded down and saturated.
pub open spec fn v_length(a: V3) -> int {
    saturate(v_norm(a))
}

/// The vector scaled to unit length, each component rounded toward zero.
/// A vector shorter than one raw unit has no direction and yields zero.
pub open spec fn v_normalized(a: V3) -> V3 {
    let n = v_norm(a);
    if n == 0 {
        v_zero()
    } else {
        V3 { x: quot(a.x * SCALE, n), y: quot(a.y * SCALE, n), z: quot(a.z * SCALE, n) }
    }
}

/// A component no longer than its vector yields a quotient of at most one.
pub proof fn lemma_unit_quotient(c: int, n: int)
    requires
        0 < n,
        -n <= c <= n,
    ensures
        -SCALE <= quot(c * SCALE, n) <= SCALE,
{
    let m = if c >= 0 { c * SCALE } else { -(c * SCALE) };
    assert(0 <= m <= n * SCALE) by (nonlinear_arith)
        requires
            -n <= c <= n,
            m == if c >= 0 { c * SCALE } else { -(c * SCALE) },
            SCALE > 0,
    ;
    assert(0 <= m / n <= SCALE) by (nonlinear_arith)
        requires
            0 <= m <= n * SCALE,
            0 < n,
    ;
    assert(c >= 0 <==> c * SCALE >= 0) by (nonlinear_arith)
        requires
            SCALE > 0,
    ;
}

/// No component of a vector is longer than the vector.
pub proof fn lemma_component_within_norm(a: V3, n: int)
    requires
        is_floor_sqrt(n, v_norm_squared(a)),
    ensures
        -n <= a.x <= n,
        -n <= a.y <= n,
        -n <= a.z <= n,
{
    assert(a.x * a.x >= 0 && a.y * a.y >= 0 && a.z * a.z >= 0) by (nonlinear_arith);
    lemma_square_root_bound(a.x, a.y * a.y + a.z * a.z, n);
    lemma_square_root_bound(a.y, a.x * a.x + a.z * a.z, n);
    lemma_square_root_bound(a.z, a.x * a.x + a.y * a.y, n);
}

/// If `c * c` plus something nonnegative is below `(n + 1)` squared, then
/// `c` lies within `n` of zero.
pub proof fn lemma_square_root_bound(c: int, rest: int, n: int)
    requires
        0 <= n,
        c * c + rest < (n + 1) * (n + 1),
    ensures
        rest >= 0 ==> -n <= c <= n,
{
    if rest >= 0 {
        assert(-n <= c <= n) by (nonlinear_arith)
            requires
                0 <= n,
                c * c < (n + 1) * (n + 1),
        ;
    }
}

/// Every natural number has an integer square root.
pub proof fn lemma_floor_sqrt(n: int)
    requires
        n >= 0,
    ensures
        is_floor_sqrt(floor_sqrt(n), n),
    decreases n,
{
    if n == 0 {
        assert(is_floor_sqrt(0, 0));
    } else {
        lemma_floor_sqrt(n - 1);
        let r = floor_sqrt(n - 1);
        if (r + 1) * (r + 1) <= n {
            assert(n < (r + 2) * (r + 2)) by (nonlinear_arith)
                requires
                    n - 1 < (r + 1) * (r + 1),
                    r >= 0,
            ;
            assert(is_floor_sqrt(r + 1, n));
        } else {
            assert(is_floor_sqrt(r, n));
        }
    }
}

/// Sum of the squares of the three components.
pub open spec fn squares(a: V3) -> int {
    a.x * a.x + a.y * a.y + a.z * a.z
}

/// One component `c` of a vector of length `n`, brought to unit length:
/// its square times `n` squared brackets the square of `c` at scale.
pub proof fn lemma_unit_component_square(c: int, n: int)
    requires
        0 < n,
        -n <= c <= n,
    ensures
        ({
            let u = quot(c * SCALE, n);
            let m = if u >= 0 { u } else { -u };
            &&& 0 <= m <= SCALE
            &&& u * u == m * m
            &&& (m * m) * (n * n) <= (c * c) * (SCALE * SCALE)
            &&& (c * c) * (SCALE * SCALE) < ((m + 1) * (m + 1)) * (n * n)
        }),
{
    lemma_unit_quotient(c, n);
    let u = quot(c * SCALE, n);
    let m = if u >= 0 { u } else { -u };
    let a = if c >= 0 { c } else { -c };
    let p = a * SCALE;
    assert(p >= 0 && (c >= 0 ==> c * SCALE == p) && (c < 0 ==> c * SCALE == -p) && (c < 0 ==> p
        > 0)) by (nonlinear_arith)
        requires
            a == if c >= 0 { c } else { -c },
            p == a * SCALE,
            SCALE == 1_000_000_000,
    ;
    assert(m == p / n);
    vstd::arithmetic::div_mod::lemma_fundamental_div_mod(p, n);
    let r = p % n;
    assert(p == n * m + r && 0 <= r < n);
    assert(u * u == m * m) by (nonlinear_arith)
        requires
            m == u || m == -u,
    ;
    assert((c * c) * (SCALE * SCALE) == p * p) by (nonlinear_arith)
        requires
            p == a * SCALE,
            a == c || a == -c,
    ;
    assert((m * m) * (n * n) <= p * p && p * p < ((m + 1) * (m + 1)) * (n * n))
        by (nonlinear_arith)
        requires
            p == n * m + r,
            0 <= r < n,
            0 <= m,
            0 < n,
    ;
}

/// A vector brought to unit length has length one up to rounding: the
/// sum of the squares of its components lies within a few raw units of
/// one whole squared. The upper bound is tight for vectors at least half
/// a whole long; shorter ones are bounded in proportion to their length.
pub proof fn lemma_normalized_is_unit(a: V3)
    requires
        v_norm(a) > 0,
    ensures
        squares(v_normalized(a)) > SCALE * SCALE - 6 * SCALE - 3,
        squares(v_normalized(a)) * (v_norm(a) * v_norm(a)) < (SCALE * SCALE) * ((v_norm(a) + 1) * (
        v_norm(a) + 1)),
        2 * v_norm(a) >= SCALE ==> squares(v_normalized(a)) < (SCALE + 2) * (SCALE + 2),
{
    let n = v_norm(a);
    let u = v_normalized(a);
    assert(a.x * a.x >= 0 && a.y * a.y >= 0 && a.z * a.z >= 0) by (nonlinear_arith);
    lemma_floor_sqrt(v_norm_squared(a));
    lemma_component_within_norm(a, n);
    lemma_unit_component_square(a.x, n);
    lemma_unit_component_square(a.y, n);
    lemma_unit_component_square(a.z, n);
    let mx = if u.x >= 0 { u.x } else { -u.x };
    let my = if u.y >= 0 { u.y } else { -u.y };
    let mz = if u.z >= 0 { u.z } else { -u.z };
    let s2 = SCALE * SCALE;
    let n2 = n * n;
    let total = v_norm_squared(a);
    let sq = mx * mx + my * my + mz * mz;
    let up = (mx + 1) * (mx + 1) + (my + 1) * (my + 1) + (mz + 1) * (mz + 1);
    assert(squares(u) == sq);
    assert(sq * n2 <= total * s2 && total * s2 < up * n2) by (nonlinear_arith)
        requires
            (mx * mx) * n2 <= (a.x * a.x) * s2,
            (my * my) * n2 <= (a.y * a.y) * s2,
            (mz * mz) * n2 <= (a.z * a.z) * s2,
            (a.x * a.x) * s2 < ((mx + 1) * (mx + 1)) * n2,
            (a.y * a.y) * s2 < ((my + 1) * (my + 1)) * n2,
            (a.z * a.z) * s2 < ((mz + 1) * (mz + 1)) * n2,
            total == a.x * a.x + a.y * a.y + a.z * a.z,
            sq == mx * mx + my * my + mz * mz,
            up == (mx + 1) * (mx + 1) + (my + 1) * (my + 1) + (mz + 1) * (mz + 1),
    ;
    let n1 = (n + 1) * (n + 1);
    assert(n2 > 0 && s2 > 0) by (nonlinear_arith)
        requires
            n > 0,
            n2 == n * n,
            s2 == SCALE * SCALE,
            SCALE > 0,
    ;
    assert(n2 * s2 <= total * s2 && total * s2 < n1 * s2) by (nonlinear_arith)
        requires
            n2 <= total,
            total < n1,
            s2 > 0,
    ;
    assert(up > s2) by (nonlinear_arith)
        requires
            n2 * s2 < up * n2,
            n2 > 0,
    ;
    assert(up == sq + 2 * (mx + my + mz) + 3) by (nonlinear_arith)
        requires
            sq == mx * mx + my * my + mz * mz,
            up == (mx + 1) * (mx + 1) + (my + 1) * (my + 1) + (mz + 1) * (mz + 1),
    ;
    assert(sq * n2 < s2 * n1) by (nonlinear_arith)
        requires
            sq * n2 <= total * s2,
            total * s2 < n1 * s2,
    ;
    if 2 * n >= SCALE {
        let w = (SCALE + 2) * (SCALE + 2);
        assert(s2 * n1 <= n2 * w) by (nonlinear_arith)
            requires
                2 * n >= SCALE,
                n > 0,
                SCALE > 0,
                s2 == SCALE * SCALE,
                n1 == (n + 1) * (n + 1),
                n2 == n * n,
                w == (SCALE + 2) * (SCALE + 2),
        ;
        assert(sq < w) by (nonlinear_arith)
            requires
                sq * n2 < n2 * w,
                n2 > 0,
        ;
    }
}

/// A vector with fixed-point components.
#[derive(Clone, Copy, Debug, PartialEq, Eq, Structural)]
pub struct Vec3 {
    pub x: Fixed,
    pub y: Fixed,
    pub z: Fixed,
}

impl View for Vec3 {
    type V = V3;

    open spec fn view(&self) -> V3 {
        V3 { x: self.x@, y: self.y@, z: self.z@ }
    }
}

impl Vec3 {
    /// The vector with the given components.
    pub fn new(x: Fixed, y: Fixed, z: Fixed) -> (r: Vec3)
        ensures
            r.x == x,
            r.y == y,
            r.z == z,
    {
        Vec3 { x, y, z }
    }

    /// The zero vector.
    pub fn zero() -> (r: Vec3)
        ensures
            r@ == v_zero(),
    {
        Vec3 { x: Fixed::zero(), y: Fixed::zero(), z: Fixed::zero() }
    }

    /// Component-wise saturating sum.
    pub fn add(self, other: Vec3) -> (r: Vec3)
        ensures
            r@ == v_add(self@, other@),
    {
        Vec3 { x: self.x.add(other.x), y: self.y.add(other.y), z: self.z.add(other.z) }
    }

    /// Component-wise saturating difference.
    pub fn sub(self, other: Vec3) -> (r: Vec3)
        ensures
            r@ == v_sub(self@, other@),
    {
        Vec3 { x: self.x.sub(other.x), y: self.y.sub(other.y), z: self.z.sub(other.z) }
    }

    /// Component-wise negation.
    pub fn neg(self) -> (r: Vec3)
        ensures
            r@ == v_neg(self@),
    {
        Vec3 { x: self.x.neg(), y: self.y.neg(), z: self.z.neg() }
    }

    /// Each component multiplied by `s`.
    pub fn scale(self, s: Fixed) -> (r: Vec3)
        ensures
            r@ == v_scale(self@, s@),
    {
        Vec3 { x: self.x.mul(s), y: self.y.mul(s), z: self.z.mul(s) }
    }

    /// Each component divided by `s`.
    pub fn unscale(self, s: Fixed) -> (r: Vec3)
        ensures
            r@ == v_unscale(self@, s@),
    {
        Vec3 { x: self.x.div(s), y: self.y.div(s), z: self.z.div(s) }
    }

    /// Dot product.
    pub fn dot(self, other: Vec3) -> (r: Fixed)
        ensures
            r@ == v_dot(self@, other@),
    {
        let s: i128 = products_sum(self.x, other.x, self.y, other.y, self.z, other.z);
        rescaled(s)
    }

    /// Cross product.
    pub fn cross(self, other: Vec3) -> (r: Vec3)
        ensures
            r@ == v_cross(self@, other@),
    {
        Vec3 {
            x: rescaled(products_difference(self.y, other.z, self.z, other.y)),
            y: rescaled(products_difference(self.z, other.x, self.x, other.z)),
            z: rescaled(products_difference(self.x, other.y, self.y, other.x)),
        }
    }

    /// Euclidean length before saturation, in raw units.
    fn norm(self) -> (r: i128)
        ensures
            r == v_norm(self@),
            is_floor_sqrt(r as int, v_norm_squared(self@)),
            0 <= r <= 2 * LIMIT,
    {
        let s: i128 = products_sum(self.x, self.x, self.y, self.y, self.z, self.z);
        assert(self.x@ * self.x@ >= 0 && self.y@ * self.y@ >= 0 && self.z@ * self.z@ >= 0)
            by (nonlinear_arith);
        let r: u128 = integer_sqrt(s as u128);
        assert(r <= 2 * LIMIT) by (nonlinear_arith)
            requires
                r * r <= s,
                s <= 3 * (LIMIT * LIMIT),
                LIMIT == 1_000_000_000_000_000_000,
                r >= 0,
        ;
        r as i128
    }

    /// Euclidean length.
    pub fn length(self) -> (r: Fixed)
        ensures
            r@ == v_length(self@),
            r@ >= 0,
            is_floor_sqrt(v_norm(self@), v_norm_squared(self@)),
    {
        Fixed::clamped(self.norm())
    }

    /// The vector scaled to unit length; zero for a vector with no length.
    pub fn normalize(self) -> (r: Vec3)
        ensures
            r@ == v_normalized(self@),
            -SCALE <= r@.x <= SCALE,
            -SCALE <= r@.y <= SCALE,
            -SCALE <= r@.z <= SCALE,
    {
        let n: i128 = self.norm();
        proof {
            lemma_component_within_norm(self@, n as int);
        }
        if n == 0 {
            Vec3::zero()
        } else {
            Vec3 {
                x: unit_component(self.x, n),
                y: unit_component(self.y, n),
                z: unit_component(self.z, n),
            }
        }
    }
}

/// `a * b + c * d + e * f` without rounding.
fn products_sum(a: Fixed, b: Fixed, c: Fixed, d: Fixed, e: Fixed, f: Fixed) -> (r: i128)
    ensures
        r == a@ * b@ + c@ * d@ + e@ * f@,
        -3 * (LIMIT * LIMIT) <= r <= 3 * (LIMIT * LIMIT),
{
    proof {
        use_type_invariant(&a);
        use_type_invariant(&b);
        use_type_invariant(&c);
        use_type_invariant(&d);
        use_type_invariant(&e);
        use_type_invariant(&f);
        lemma_product_bound(a@, b@, LIMIT as int, LIMIT as int);
        lemma_product_bound(c@, d@, LIMIT as int, LIMIT as int);
        lemma_product_bound(e@, f@, LIMIT as int, LIMIT as int);
    }
    let ab: i128 = a.raw() as i128 * b.raw() as i128;
    let cd: i128 = c.raw() as i128 * d.raw() as i128;
    let ef: i128 = e.raw() as i128 * f.raw() as i128;
    ab + cd + ef
}

/// `a * b - c * d` without rounding.
fn products_difference(a: Fixed, b: Fixed, c: Fixed, d: Fixed) -> (r: i128)
    ensures
        r == a@ * b@ - c@ * d@,
        -3 * (LIMIT * LIMIT) <= r <= 3 * (LIMIT * LIMIT),
{
    proof {
        use_type_invariant(&a);
        use_type_invariant(&b);
        use_type_invariant(&c);
        use_type_invariant(&d);
        lemma_product_bound(a@, b@, LIMIT as int, LIMIT as int);
        lemma_product_bound(c@, d@, LIMIT as int, LIMIT as int);
    }
    let ab: i128 = a.raw() as i128 * b.raw() as i128;
    let cd: i128 = c.raw() as i128 * d.raw() as i128;
    ab - cd
}

/// An exact sum of products brought back to scale and saturated.
fn rescaled(s: i128) -> (r: Fixed)
    requires
        -3 * (LIMIT * LIMIT) <= s <= 3 * (LIMIT * LIMIT),
    ensures
        r@ == saturate(quot(s as int, SCALE as int)),
{
    if s >= 0 {
        Fixed::clamped(s / (SCALE as i128))
    } else {
        Fixed::clamped(-((-s) / (SCALE as i128)))
    }
}

/// One component of a unit vector: `c` over the length `n` of its vector.
pub(crate) fn unit_component(c: Fixed, n: i128) -> (r: Fixed)
    requires
        0 < n <= 2 * LIMIT,
        -n <= c@ <= n,
    ensures
        r@ == quot(c@ * SCALE, n as int),
        -SCALE <= r@ <= SCALE,
{
    proof {
        use_type_invariant(&c);
        lemma_product_bound(c@, SCALE as int, LIMIT as int, SCALE as int);
        lemma_unit_quotient(c@, n as int);
    }
    let m: i128 = c.raw() as i128 * SCALE as i128;
    if m >= 0 {
        Fixed::clamped(m / n)
    } else {
        Fixed::clamped(-((-m) / n))
    }
}

} // verus!
