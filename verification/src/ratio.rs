//! Exact ratios of two integers.
//!
//! A rate of change and a span of time are both quotients of small integers.
//! They are kept as the two integers, so that nothing is rounded and so that
//! a quotient by zero stays visible instead of turning into a number.

use vstd::prelude::*;

verus! {

/// The quotient `num / den`, kept exact. A ratio whose `den` is zero stands
/// for no number at all.
#[derive(Clone, Copy, Debug, PartialEq, Eq, Structural)]
pub struct Ratio {
    pub num: i32,
    pub den: i32,
}

impl Ratio {
    /// Whether the ratio stands for a number.
    pub open spec fn defined(self) -> bool {
        self.den != 0
    }

    /// Whether the ratio stands for a number above zero.
    pub open spec fn positive(self) -> bool {
        (self.num > 0 && self.den > 0) || (self.num < 0 && self.den < 0)
    }

    /// Whether two defined ratios stand for the same number.
    pub open spec fn same_value(self, other: Ratio) -> bool {
        self.num * other.den == other.num * self.den
    }

    /// Whether two defined ratios stand for numbers that add up to zero.
    pub open spec fn opposite_value(self, other: Ratio) -> bool {
        self.num * other.den == -(other.num * self.den)
    }

    /// Decides [`Ratio::defined`].
    pub fn is_defined(&self) -> (b: bool)
        ensures
            b == self.defined(),
    {
        self.den != 0
    }

    /// Decides [`Ratio::positive`].
    pub fn is_positive(&self) -> (b: bool)
        ensures
            b == self.positive(),
    {
        (self.num > 0 && self.den > 0) || (self.num < 0 && self.den < 0)
    }

    /// Decides [`Ratio::same_value`] by cross-multiplication.
    pub fn has_same_value(&self, other: &Ratio) -> (b: bool)
        ensures
            b == self.same_value(*other),
    {
        let a: i64 = self.num as i64;
        let b: i64 = other.den as i64;
        let c: i64 = other.num as i64;
        let d: i64 = self.den as i64;
        proof {
            lemma_product_fits(a as int, b as int);
            lemma_product_fits(c as int, d as int);
        }
        a * b == c * d
    }

    /// Decides [`Ratio::opposite_value`] by cross-multiplication.
    pub fn has_opposite_value(&self, other: &Ratio) -> (b: bool)
        ensures
            b == self.opposite_value(*other),
    {
        let a: i64 = self.num as i64;
        let b: i64 = other.den as i64;
        let c: i64 = other.num as i64;
        let d: i64 = self.den as i64;
        proof {
            lemma_product_fits(a as int, b as int);
            lemma_product_fits(c as int, d as int);
        }
        a * b == 0 - c * d
    }
}

/// The product of two 32-bit integers lies well inside the 64-bit range.
proof fn lemma_product_fits(a: int, b: int)
    requires
        i32::MIN <= a <= i32::MAX,
        i32::MIN <= b <= i32::MAX,
    ensures
        -0x4000_0000_0000_0000 <= a * b <= 0x4000_0000_0000_0000,
{
    assert(-0x4000_0000_0000_0000 <= a * b <= 0x4000_0000_0000_0000) by (nonlinear_arith)
        requires
            -0x8000_0000 <= a <= 0x8000_0000,
            -0x8000_0000 <= b <= 0x8000_0000,
    ;
}

/// A ratio is positive exactly when its two parts multiply to more than zero.
pub proof fn lemma_positive_by_product(r: Ratio)
    ensures
        r.positive() <==> r.num * r.den > 0,
{
    let a = r.num as int;
    let b = r.den as int;
    assert(((a > 0 && b > 0) || (a < 0 && b < 0)) <==> a * b > 0) by (nonlinear_arith);
}

} // verus!
