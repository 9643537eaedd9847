//! Exact rational elevation values.
//!
//! An elevation is a fraction `num / den` with a positive denominator.
//! Comparisons cross-multiply in `i128`, which cannot overflow for `i64`
//! operands, so no elevation value is ever rounded.

use vstd::prelude::*;

verus! {

/// One exact elevation value: the fraction `num / den`, with `den > 0`.
#[derive(Clone, Copy, Debug, PartialEq, Eq, Structural)]
pub struct Rat {
    pub num: i64,
    pub den: i64,
}

/// `an / ad <= bn / bd`, by cross-multiplication. Meaningful when both
/// denominators are positive.
pub open spec fn pair_le(an: int, ad: int, bn: int, bd: int) -> bool {
    an * bd <= bn * ad
}

/// `an / ad == bn / bd` as values, by cross-multiplication. Meaningful
/// when both denominators are positive.
pub open spec fn pair_eq(an: int, ad: int, bn: int, bd: int) -> bool {
    an * bd == bn * ad
}

impl Rat {
    /// A well-formed value has a positive denominator.
    pub open spec fn wf(self) -> bool {
        self.den > 0
    }

    /// `self <= other` as rational values.
    pub open spec fn le_spec(self, other: Rat) -> bool {
        pair_le(self.num as int, self.den as int, other.num as int, other.den as int)
    }

    /// `self == other` as rational values (the fractions need not be in
    /// the same terms).
    pub open spec fn eq_spec(self, other: Rat) -> bool {
        pair_eq(self.num as int, self.den as int, other.num as int, other.den as int)
    }

    pub fn new(num: i64, den: i64) -> (r: Rat)
        requires
            den > 0,
        ensures
            r == (Rat { num, den }),
            r.wf(),
    {
        Rat { num, den }
    }

    /// The value `m / 1000`: a whole number of thousandths of a grid unit.
    pub fn from_milli(m: i64) -> (r: Rat)
        ensures
            r == (Rat { num: m, den: 1000int as i64 }),
            r.wf(),
    {
        Rat { num: m, den: 1000 }
    }

    /// Exact comparison by cross-multiplication.
    pub fn le(&self, other: &Rat) -> (r: bool)
        requires
            self.wf(),
            other.wf(),
        ensures
            r == self.le_spec(*other),
    {
        proof {
            lemma_i64_mul_fits_i128(self.num as int, other.den as int);
            lemma_i64_mul_fits_i128(other.num as int, self.den as int);
        }
        (self.num as i128) * (other.den as i128) <= (other.num as i128) * (self.den as i128)
    }

    /// Exact value equality by cross-multiplication.
    pub fn eq_val(&self, other: &Rat) -> (r: bool)
        requires
            self.wf(),
            other.wf(),
        ensures
            r == self.eq_spec(*other),
    {
        proof {
            lemma_i64_mul_fits_i128(self.num as int, other.den as int);
            lemma_i64_mul_fits_i128(other.num as int, self.den as int);
        }
        (self.num as i128) * (other.den as i128) == (other.num as i128) * (self.den as i128)
    }
}

/// The product of two `i64`-sized values fits in `i128`.
proof fn lemma_i64_mul_fits_i128(a: int, b: int)
    by (nonlinear_arith)
    requires
        i64::MIN <= a <= i64::MAX,
        i64::MIN <= b <= i64::MAX,
    ensures
        i128::MIN <= a * b <= i128::MAX,
{
}

/// Two rational values below each other are equal.
pub proof fn lemma_pair_le_antisymmetric(an: int, ad: int, bn: int, bd: int)
    requires
        pair_le(an, ad, bn, bd),
        pair_le(bn, bd, an, ad),
    ensures
        pair_eq(an, ad, bn, bd),
{
}

/// `<=` on rational values is transitive.
pub proof fn lemma_pair_le_transitive(
    an: int, ad: int, bn: int, bd: int, cn: int, cd: int,
)
    by (nonlinear_arith)
    requires
        ad > 0,
        bd > 0,
        cd > 0,
        pair_le(an, ad, bn, bd),
        pair_le(bn, bd, cn, cd),
    ensures
        pair_le(an, ad, cn, cd),
{
}

/// A value below one of two equal values is below the other.
pub proof fn lemma_pair_le_congruent(
    an: int, ad: int, bn: int, bd: int, cn: int, cd: int,
)
    by (nonlinear_arith)
    requires
        ad > 0,
        bd > 0,
        cd > 0,
        pair_le(an, ad, bn, bd),
        pair_eq(bn, bd, cn, cd),
    ensures
        pair_le(an, ad, cn, cd),
{
}

/// Value equality of rationals is symmetric.
pub proof fn lemma_pair_eq_symmetric(an: int, ad: int, bn: int, bd: int)
    ensures
        pair_eq(an, ad, bn, bd) == pair_eq(bn, bd, an, ad),
{
}

} // verus!
