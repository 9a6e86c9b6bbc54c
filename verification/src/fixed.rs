//! Fixed-point numbers and exact ratios.

use vstd::prelude::*;

verus! {

/// The number of fixed-point units in one whole: one map cell, or one radian.
pub const ONE: i64 = 65536;

/// The product of a fixed-point factor and a fixed-point length, rounded down
/// to the next unit.
pub open spec fn scaled(factor: int, length: int) -> int {
    (factor * length) / (ONE as int)
}

/// The quotient of `a` by a positive `b`, rounded down.
pub open spec fn floor_quotient(a: int, b: int) -> int {
    a / b
}

/// `Some(v)` where `v` is an `i64`, else `None`.
pub open spec fn fitted(v: int) -> Option<i64> {
    if i64::MIN <= v <= i64::MAX {
        Some(v as i64)
    } else {
        None
    }
}

/// `fitted`, computed.
pub fn fit(v: i128) -> (r: Option<i64>)
    ensures
        r == fitted(v as int),
{
    if i64::MIN as i128 <= v && v <= i64::MAX as i128 {
        Some(v as i64)
    } else {
        None
    }
}

/// Divides by a positive number and rounds down, below zero too.
pub fn floor_div(a: i128, b: i128) -> (q: i128)
    requires
        0 < b,
    ensures
        q == floor_quotient(a as int, b as int),
{
    if a >= 0 {
        a / b
    } else {
        let n: i128 = -(a + 1);
        let q: i128 = n / b;
        proof {
            let m = n as int % b as int;
            vstd::arithmetic::div_mod::lemma_fundamental_div_mod(n as int, b as int);
            assert(a == (-(q as int) - 1) * b + (b - 1 - m)) by (nonlinear_arith)
                requires
                    n == b * q + m,
                    a == -(n + 1),
            ;
            vstd::arithmetic::div_mod::lemma_fundamental_div_mod_converse(
                a as int,
                b as int,
                -(q as int) - 1,
                b - 1 - m,
            );
        }
        -q - 1
    }
}

/// `scaled`, computed.
pub fn scale(factor: i64, length: i64) -> (r: i128)
    ensures
        r == scaled(factor as int, length as int),
{
    assert(-0x4000_0000_0000_0000_0000_0000_0000_0000 <= factor as int * length as int
        <= 0x4000_0000_0000_0000_0000_0000_0000_0000) by (nonlinear_arith);
    let product: i128 = (factor as i128) * (length as i128);
    floor_div(product, ONE as i128)
}

/// A ratio of two whole numbers. Quotients are compared with it exactly, by
/// multiplying out, so that a third is a third.
#[derive(Clone, Copy, Debug, PartialEq, Eq)]
pub struct Ratio {
    pub num: u32,
    pub den: u32,
}

impl Ratio {
    /// The ratio lies between zero and one.
    pub open spec fn proper(self) -> bool {
        0 < self.den && self.num <= self.den
    }

    /// `part / whole` is smaller than this ratio, for a positive `whole`:
    /// the two sides are compared after multiplying out.
    pub open spec fn exceeds(self, part: int, whole: int) -> bool {
        part * self.den < whole * self.num
    }

    /// `part / whole` is at most this ratio, for a positive `whole`.
    pub open spec fn reaches(self, part: int, whole: int) -> bool {
        part * self.den <= whole * self.num
    }

    /// This ratio is at most `other`, for two ratios with denominators.
    pub open spec fn at_most(self, other: Ratio) -> bool {
        self.num * other.den <= other.num * self.den
    }

    /// `at_most`, computed.
    pub fn is_at_most(&self, other: &Ratio) -> (r: bool)
        ensures
            r == self.at_most(*other),
    {
        proof {
            lemma_product_bounded(self.num as int, other.den as int, 0xffff_ffff, 0xffff_ffff);
            lemma_product_bounded(other.num as int, self.den as int, 0xffff_ffff, 0xffff_ffff);
        }
        self.num as u64 * other.den as u64 <= other.num as u64 * self.den as u64
    }

    /// `proper`, computed.
    pub fn is_proper(&self) -> (r: bool)
        ensures
            r == self.proper(),
    {
        0 < self.den && self.num <= self.den
    }

    /// `exceeds`, computed, for numbers whose products fit the machine.
    pub(crate) fn above(&self, part: i128, whole: i128) -> (r: bool)
        requires
            -0x4000_0000_0000_0000_0000_0000 <= part <= 0x4000_0000_0000_0000_0000_0000,
            -0x4000_0000_0000_0000_0000_0000 <= whole <= 0x4000_0000_0000_0000_0000_0000,
        ensures
            r == self.exceeds(part as int, whole as int),
    {
        proof {
            lemma_product_bounded(
                part as int,
                self.den as int,
                0x4000_0000_0000_0000_0000_0000,
                0xffff_ffff,
            );
            lemma_product_bounded(
                whole as int,
                self.num as int,
                0x4000_0000_0000_0000_0000_0000,
                0xffff_ffff,
            );
        }
        part * (self.den as i128) < whole * (self.num as i128)
    }

    /// `reaches`, computed, for numbers whose products fit the machine.
    pub(crate) fn covers(&self, part: i128, whole: i128) -> (r: bool)
        requires
            -0x4000_0000_0000_0000_0000_0000 <= part <= 0x4000_0000_0000_0000_0000_0000,
            -0x4000_0000_0000_0000_0000_0000 <= whole <= 0x4000_0000_0000_0000_0000_0000,
        ensures
            r == self.reaches(part as int, whole as int),
    {
        proof {
            lemma_product_bounded(
                part as int,
                self.den as int,
                0x4000_0000_0000_0000_0000_0000,
                0xffff_ffff,
            );
            lemma_product_bounded(
                whole as int,
                self.num as int,
                0x4000_0000_0000_0000_0000_0000,
                0xffff_ffff,
            );
        }
        part * (self.den as i128) <= whole * (self.num as i128)
    }
}

/// A ratio between zero and one exceeds no quotient that is one or more.
pub proof fn lemma_proper_exceeds_less_than_one(ratio: Ratio, part: int, whole: int)
    by (nonlinear_arith)
    requires
        ratio.proper(),
        0 <= whole <= part,
    ensures
        !ratio.exceeds(part, whole),
{
}

/// The product of two bounded numbers is bounded by the product of the
/// bounds.
pub(crate) proof fn lemma_product_bounded(a: int, b: int, ma: int, mb: int)
    by (nonlinear_arith)
    requires
        -ma <= a <= ma,
        -mb <= b <= mb,
    ensures
        -(ma * mb) <= a * b <= ma * mb,
{
}

} // verus!
