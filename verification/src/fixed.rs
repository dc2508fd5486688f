//! Saturating 32.32 fixed-point scalars.

use vstd::prelude::*;

verus! {

/// The raw representation of `1.0`.
pub const ONE_RAW: i64 = 0x1_0000_0000;

/// Clamps a mathematical integer into the symmetric range
/// `-i64::MAX ..= i64::MAX`.
pub open spec fn saturate(x: int) -> int {
    if x < -(i64::MAX as int) {
        -(i64::MAX as int)
    } else if x > i64::MAX as int {
        i64::MAX as int
    } else {
        x
    }
}

/// The quotient `x / d` rounded towards zero, for a positive `d`.
pub open spec fn truncate(x: int, d: int) -> int {
    if x >= 0 {
        x / d
    } else {
        -((-x) / d)
    }
}

/// A signed fixed-point number with 32 fractional bits. The number it stands
/// for is `raw / 2^32`. Arithmetic saturates at `-i64::MAX` and `i64::MAX`;
/// products and halves round towards zero, so that negating an operand
/// negates the result.
#[derive(Clone, Copy, Debug, PartialEq, Eq, Structural)]
pub struct Fixed {
    pub raw: i64,
}

impl View for Fixed {
    type V = int;

    open spec fn view(&self) -> int {
        self.raw as int
    }
}

impl Fixed {
    /// The fixed-point number whose raw representation is `x`, clamped to
    /// the symmetric range.
    pub open spec fn of(x: int) -> Fixed {
        Fixed { raw: saturate(x) as i64 }
    }

    pub open spec fn spec_plus(self, rhs: Fixed) -> Fixed {
        Fixed::of(self@ + rhs@)
    }

    pub open spec fn spec_minus(self, rhs: Fixed) -> Fixed {
        Fixed::of(self@ - rhs@)
    }

    pub open spec fn spec_neg(self) -> Fixed {
        Fixed::of(-self@)
    }

    /// The product, rounded towards zero.
    pub open spec fn spec_times(self, rhs: Fixed) -> Fixed {
        Fixed::of(truncate(self@ * rhs@, 0x1_0000_0000))
    }

    /// Half of the number, rounded towards zero.
    pub open spec fn spec_half(self) -> Fixed {
        Fixed::of(truncate(self@, 2))
    }

    pub open spec fn spec_from_int(n: int) -> Fixed {
        Fixed::of(n * 0x1_0000_0000)
    }

    pub fn zero() -> (r: Fixed)
        ensures
            r@ == 0,
    {
        Fixed { raw: 0 }
    }

    pub fn one() -> (r: Fixed)
        ensures
            r@ == ONE_RAW,
    {
        Fixed { raw: ONE_RAW }
    }

    pub fn from_raw(raw: i64) -> (r: Fixed)
        ensures
            r@ == raw,
    {
        Fixed { raw }
    }

    /// The whole number `n`. Every `i32` but the least converts exactly.
    pub fn from_int(n: i32) -> (r: Fixed)
        ensures
            r == Fixed::spec_from_int(n as int),
            n > i32::MIN ==> r@ == n * 0x1_0000_0000,
    {
        let wide: i128 = (n as i128) * 0x1_0000_0000;
        Fixed { raw: clamp(wide) }
    }

    pub fn plus(self, rhs: Fixed) -> (r: Fixed)
        ensures
            r == self.spec_plus(rhs),
    {
        let sum: i128 = self.raw as i128 + rhs.raw as i128;
        Fixed { raw: clamp(sum) }
    }

    pub fn minus(self, rhs: Fixed) -> (r: Fixed)
        ensures
            r == self.spec_minus(rhs),
    {
        let diff: i128 = self.raw as i128 - rhs.raw as i128;
        Fixed { raw: clamp(diff) }
    }

    pub fn neg(self) -> (r: Fixed)
        ensures
            r == self.spec_neg(),
    {
        let flipped: i128 = -(self.raw as i128);
        Fixed { raw: clamp(flipped) }
    }

    pub fn times(self, rhs: Fixed) -> (r: Fixed)
        ensures
            r == self.spec_times(rhs),
    {
        let negative: bool = (self.raw < 0) != (rhs.raw < 0);
        let a: u128 = magnitude(self.raw);
        let b: u128 = magnitude(rhs.raw);
        proof {
            lemma_product_fits(a as int, b as int);
            lemma_product_sign(self@, rhs@);
        }
        let product: u128 = a * b;
        let shifted: u128 = product >> 32;
        assert(shifted == product / 0x1_0000_0000) by (bit_vector)
            requires
                shifted == product >> 32,
        ;
        let quotient: i128 = shifted as i128;
        if negative {
            Fixed { raw: clamp(-quotient) }
        } else {
            Fixed { raw: clamp(quotient) }
        }
    }

    pub fn half(self) -> (r: Fixed)
        ensures
            r == self.spec_half(),
    {
        let m: u128 = magnitude(self.raw);
        let shifted: u128 = m >> 1;
        assert(shifted == m / 2) by (bit_vector)
            requires
                shifted == m >> 1,
        ;
        let quotient: i128 = shifted as i128;
        if self.raw < 0 {
            Fixed { raw: clamp(-quotient) }
        } else {
            Fixed { raw: clamp(quotient) }
        }
    }

    pub fn is_zero(self) -> (r: bool)
        ensures
            r == (self@ == 0),
    {
        self.raw == 0
    }

    pub fn is_positive(self) -> (r: bool)
        ensures
            r == (self@ > 0),
    {
        self.raw > 0
    }
}

/// Negating an operand of a product negates the product.
pub proof fn lemma_times_odd(a: Fixed, b: Fixed)
    requires
        a@ > i64::MIN,
    ensures
        a.spec_neg().spec_times(b) == a.spec_times(b).spec_neg(),
{
    assert((-a@) * b@ == -(a@ * b@)) by (nonlinear_arith);
}

fn clamp(x: i128) -> (r: i64)
    ensures
        r as int == saturate(x as int),
{
    if x < -(i64::MAX as i128) {
        -i64::MAX
    } else if x > i64::MAX as i128 {
        i64::MAX
    } else {
        x as i64
    }
}

fn magnitude(x: i64) -> (r: u128)
    ensures
        r as int == (if x < 0 { -(x as int) } else { x as int }),
        r <= 0x8000_0000_0000_0000,
{
    if x < 0 {
        (-(x as i128)) as u128
    } else {
        x as u128
    }
}

proof fn lemma_product_fits(a: int, b: int)
    requires
        0 <= a <= 0x8000_0000_0000_0000,
        0 <= b <= 0x8000_0000_0000_0000,
    ensures
        0 <= a * b <= 0x4000_0000_0000_0000_0000_0000_0000_0000,
{
    assert(0 <= a * b <= 0x4000_0000_0000_0000_0000_0000_0000_0000) by (nonlinear_arith)
        requires
            0 <= a <= 0x8000_0000_0000_0000,
            0 <= b <= 0x8000_0000_0000_0000,
    ;
}

/// The product of two numbers is the product of their magnitudes, negated
/// when exactly one of them is negative.
proof fn lemma_product_sign(a: int, b: int)
    ensures
        (a < 0) == (b < 0) ==> a * b >= 0 && a * b == (if a < 0 { -a } else { a }) * (if b < 0 { -b } else { b }),
        (a < 0) != (b < 0) ==> a * b <= 0 && -(a * b) == (if a < 0 { -a } else { a }) * (if b < 0 { -b } else { b }),
{
    assert((a < 0) == (b < 0) ==> a * b >= 0 && a * b == (if a < 0 { -a } else { a }) * (if b < 0 { -b } else { b })) by (nonlinear_arith);
    assert((a < 0) != (b < 0) ==> a * b <= 0 && -(a * b) == (if a < 0 { -a } else { a }) * (if b < 0 { -b } else { b })) by (nonlinear_arith);
}

} // verus!
