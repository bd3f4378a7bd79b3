//! Exact fractions, for probabilities and blend coefficients.

use vstd::prelude::*;

verus! {

/// The fraction `num / den`. Only a fraction with a positive denominator
/// stands for a number.
#[derive(Clone, Copy, Debug, PartialEq, Eq, Structural)]
pub struct Fraction {
    pub num: i64,
    pub den: i64,
}

impl Fraction {
    /// Whether the fraction stands for a number between 0 and 1, both
    /// included.
    pub open spec fn is_unit(self) -> bool {
        self.den > 0 && 0 <= self.num <= self.den
    }

    /// The largest integer that does not exceed `n` times the fraction.
    pub open spec fn floor_of(self, n: int) -> int {
        (self.num * n) / (self.den as int)
    }

    pub fn new(num: i64, den: i64) -> (r: Self)
        ensures
            r == (Fraction { num, den }),
    {
        Fraction { num, den }
    }

    /// Tells whether the fraction lies between 0 and 1.
    pub fn in_unit_interval(&self) -> (r: bool)
        ensures
            r == self.is_unit(),
    {
        self.den > 0 && 0 <= self.num && self.num <= self.den
    }

    /// The whole part of `n` times the fraction.
    pub fn scale(&self, n: usize) -> (r: usize)
        requires
            self.is_unit(),
        ensures
            r == self.floor_of(n as int),
            r <= n,
    {
        let num: u128 = self.num as u128;
        let den: u128 = self.den as u128;
        let count: u128 = n as u128;
        assert(num * count <= den * count) by (nonlinear_arith)
            requires
                num <= den,
                count >= 0,
        ;
        assert(den * count <= 0x8000_0000_0000_0000 * 0x1_0000_0000_0000_0000) by (nonlinear_arith)
            requires
                0 < den <= 0x8000_0000_0000_0000,
                0 <= count <= 0x1_0000_0000_0000_0000,
        ;
        let product: u128 = num * count;
        let whole: u128 = product / den;
        assert(whole <= count) by (nonlinear_arith)
            requires
                whole == product / den,
                product <= den * count,
                den > 0,
        ;
        whole as usize
    }
}

} // verus!
