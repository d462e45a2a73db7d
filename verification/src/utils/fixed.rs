//! Saturating decimal fixed-point numbers.

use vstd::prelude::*;

verus! {

/// Raw units per whole: a number with raw value `r` stands for `r / SCALE`.
pub const SCALE: i64 = 1_000_000_000;

/// Largest raw magnitude. Every result is clamped into `[-LIMIT, LIMIT]`.
pub const LIMIT: i64 = 1_000_000_000_000_000_000;

/// `v` clamped into the representable range.
pub open spec fn saturate(v: int) -> int {
    if v > LIMIT {
        LIMIT as int
    } else if v < -LIMIT {
        -LIMIT
    } else {
        v
    }
}

/// Quotient of `n` by `d` rounded toward zero (`d` is not zero).
pub open spec fn quot(n: int, d: int) -> int
    recommends
        d != 0,
{
    if d > 0 {
        if n >= 0 {
            n / d
        } else {
            -((-n) / d)
        }
    } else {
        if n >= 0 {
            -(n / (-d))
        } else {
            (-n) / (-d)
        }
    }
}

/// Absolute value of an integer.
pub open spec fn magnitude(v: int) -> int {
    if v < 0 {
        -v
    } else {
        v
    }
}

/// Raw value of a saturating sum.
pub open spec fn sat_add(a: int, b: int) -> int {
    saturate(a + b)
}

/// Raw value of a saturating difference.
pub open spec fn sat_sub(a: int, b: int) -> int {
    saturate(a - b)
}

/// Raw value of a product: the exact product, rescaled toward zero, saturated.
pub open spec fn sat_mul(a: int, b: int) -> int {
    saturate(quot(a * b, SCALE as int))
}

/// Raw value of a quotient. A nonzero number over zero saturates with the
/// sign of the numerator; zero over zero is zero.
pub open spec fn sat_div(a: int, b: int) -> int {
    if b != 0 {
        saturate(quot(a * SCALE, b))
    } else if a > 0 {
        LIMIT as int
    } else if a < 0 {
        -LIMIT
    } else {
        0
    }
}

/// A product is bounded by the product of the bounds of its factors.
pub proof fn lemma_product_bound(a: int, b: int, bound_a: int, bound_b: int)
    requires
        -bound_a <= a <= bound_a,
        -bound_b <= b <= bound_b,
    ensures
        -(bound_a * bound_b) <= a * b <= bound_a * bound_b,
{
    assert(-(bound_a * bound_b) <= a * b <= bound_a * bound_b) by (nonlinear_arith)
        requires
            -bound_a <= a <= bound_a,
            -bound_b <= b <= bound_b,
    ;
}

/// Rounding toward zero keeps order.
pub proof fn lemma_quot_monotone(a: int, b: int, d: int)
    requires
        a <= b,
        d > 0,
    ensures
        quot(a, d) <= quot(b, d),
{
    if a >= 0 {
        vstd::arithmetic::div_mod::lemma_div_is_ordered(a, b, d);
    } else if b >= 0 {
        vstd::arithmetic::div_mod::lemma_div_is_ordered(0, -a, d);
        vstd::arithmetic::div_mod::lemma_div_is_ordered(0, b, d);
    } else {
        vstd::arithmetic::div_mod::lemma_div_is_ordered(-b, -a, d);
    }
}

/// Rounding toward zero commutes with negation.
pub proof fn lemma_quot_odd(a: int, d: int)
    requires
        d > 0,
    ensures
        quot(-a, d) == -quot(a, d),
{
    if a == 0 {
        assert(0int / d == 0) by (nonlinear_arith)
            requires
                d > 0,
        ;
    }
}

/// A product changes sign with either factor.
pub proof fn lemma_sat_mul_odd(a: int, b: int)
    ensures
        sat_mul(-a, b) == -sat_mul(a, b),
        sat_mul(a, -b) == -sat_mul(a, b),
{
    assert((-a) * b == -(a * b) && a * (-b) == -(a * b)) by (nonlinear_arith);
    lemma_quot_odd(a * b, SCALE as int);
}

/// Multiplying by a factor that is not negative keeps order.
pub proof fn lemma_sat_mul_monotone(c: int, a: int, b: int)
    requires
        c >= 0,
        a <= b,
    ensures
        sat_mul(c, a) <= sat_mul(c, b),
{
    assert(c * a <= c * b) by (nonlinear_arith)
        requires
            c >= 0,
            a <= b,
    ;
    lemma_quot_monotone(c * a, c * b, SCALE as int);
}

/// Anything times zero is zero.
pub proof fn lemma_sat_mul_zero(a: int)
    ensures
        sat_mul(a, 0) == 0,
        sat_mul(0, a) == 0,
{
    assert(a * 0 == 0 && 0 * a == 0) by (nonlinear_arith);
}

/// The reciprocal of a positive number is not negative, and a larger
/// number has no larger reciprocal.
pub proof fn lemma_reciprocal_antitone(a: int, b: int)
    requires
        0 < a <= b,
    ensures
        sat_div(SCALE as int, a) >= sat_div(SCALE as int, b) >= 0,
{
    let n = SCALE * SCALE;
    vstd::arithmetic::div_mod::lemma_div_is_ordered_by_denominator(n, a, b);
    vstd::arithmetic::div_mod::lemma_div_is_ordered(0, n, b);
}

/// A signed decimal number with nine fractional digits.
#[derive(Clone, Copy, Debug, PartialEq, Eq, Structural)]
pub struct Fixed {
    pub(crate) raw: i64,
}

impl View for Fixed {
    type V = int;

    closed spec fn view(&self) -> int {
        self.raw as int
    }
}

impl Fixed {
    /// Every number lies in the representable range.
    #[verifier::type_invariant]
    pub open spec fn in_range(self) -> bool {
        -LIMIT <= self@ <= LIMIT
    }

    /// The number with the given raw value, clamped into range.
    pub fn from_raw(raw: i64) -> (r: Fixed)
        ensures
            r@ == saturate(raw as int),
    {
        if raw > LIMIT {
            Fixed { raw: LIMIT }
        } else if raw < -LIMIT {
            Fixed { raw: -LIMIT }
        } else {
            Fixed { raw }
        }
    }

    /// The raw value.
    pub fn raw(self) -> (r: i64)
        ensures
            r == self@,
            -LIMIT <= r <= LIMIT,
    {
        proof {
            use_type_invariant(&self);
        }
        self.raw
    }

    /// Clamps a wide intermediate result into range.
    pub(crate) fn clamped(v: i128) -> (r: Fixed)
        ensures
            r@ == saturate(v as int),
    {
        if v > LIMIT as i128 {
            Fixed { raw: LIMIT }
        } else if v < -(LIMIT as i128) {
            Fixed { raw: -LIMIT }
        } else {
            Fixed { raw: v as i64 }
        }
    }

    /// Zero.
    pub fn zero() -> (r: Fixed)
        ensures
            r@ == 0,
    {
        Fixed { raw: 0 }
    }

    /// One.
    pub fn one() -> (r: Fixed)
        ensures
            r@ == SCALE,
    {
        Fixed { raw: SCALE }
    }

    /// The whole number `n`, saturated.
    pub fn from_int(n: i64) -> (r: Fixed)
        ensures
            r@ == saturate(n * SCALE),
    {
        proof {
            lemma_product_bound(n as int, SCALE as int, 0x8000_0000_0000_0000, SCALE as int);
        }
        Fixed::clamped(n as i128 * SCALE as i128)
    }

    /// Saturating sum.
    pub fn add(self, other: Fixed) -> (r: Fixed)
        ensures
            r@ == sat_add(self@, other@),
    {
        Fixed::clamped(self.raw as i128 + other.raw as i128)
    }

    /// Saturating difference.
    pub fn sub(self, other: Fixed) -> (r: Fixed)
        ensures
            r@ == sat_sub(self@, other@),
    {
        Fixed::clamped(self.raw as i128 - other.raw as i128)
    }

    /// Twice the number, saturated.
    pub fn twice(self) -> (r: Fixed)
        ensures
            r@ == saturate(2 * self@),
    {
        Fixed::clamped(2 * (self.raw as i128))
    }

    /// Negation, which is exact.
    pub fn neg(self) -> (r: Fixed)
        ensures
            r@ == -self@,
    {
        proof {
            use_type_invariant(&self);
        }
        Fixed { raw: -self.raw }
    }

    /// Absolute value, which is exact.
    pub fn abs(self) -> (r: Fixed)
        ensures
            r@ == magnitude(self@),
    {
        proof {
            use_type_invariant(&self);
        }
        if self.raw < 0 {
            Fixed { raw: -self.raw }
        } else {
            self
        }
    }

    /// Product, rounded toward zero and saturated.
    pub fn mul(self, other: Fixed) -> (r: Fixed)
        ensures
            r@ == sat_mul(self@, other@),
    {
        proof {
            use_type_invariant(&self);
            use_type_invariant(&other);
            lemma_product_bound(self@, other@, LIMIT as int, LIMIT as int);
        }
        let a: i128 = self.raw as i128;
        let b: i128 = other.raw as i128;
        let p: i128 = a * b;
        if p >= 0 {
            Fixed::clamped(p / (SCALE as i128))
        } else {
            Fixed::clamped(-((-p) / (SCALE as i128)))
        }
    }

    /// Quotient, rounded toward zero and saturated; see [`sat_div`] for a
    /// zero divisor.
    pub fn div(self, other: Fixed) -> (r: Fixed)
        ensures
            r@ == sat_div(self@, other@),
    {
        proof {
            use_type_invariant(&self);
            use_type_invariant(&other);
        }
        if other.raw == 0 {
            if self.raw > 0 {
                Fixed { raw: LIMIT }
            } else if self.raw < 0 {
                Fixed { raw: -LIMIT }
            } else {
                Fixed { raw: 0 }
            }
        } else {
            proof {
                lemma_product_bound(self@, SCALE as int, LIMIT as int, SCALE as int);
            }
            let n: i128 = self.raw as i128 * SCALE as i128;
            let d: i128 = other.raw as i128;
            let n_abs: i128 = if n < 0 { -n } else { n };
            let d_abs: i128 = if d < 0 { -d } else { d };
            let q: i128 = n_abs / d_abs;
            if (n >= 0) == (d > 0) {
                Fixed::clamped(q)
            } else {
                Fixed::clamped(-q)
            }
        }
    }

    /// Whether `self` is less than `other`.
    pub fn lt(self, other: Fixed) -> (r: bool)
        ensures
            r == (self@ < other@),
    {
        self.raw < other.raw
    }

    /// Whether `self` is greater than `other`.
    pub fn gt(self, other: Fixed) -> (r: bool)
        ensures
            r == (self@ > other@),
    {
        self.raw > other.raw
    }

    /// Whether `self` is zero.
    pub fn is_zero(self) -> (r: bool)
        ensures
            r == (self@ == 0),
    {
        self.raw == 0
    }
}

} // verus!
