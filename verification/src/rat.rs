//! Exact rational scalars.
//!
//! Every tick offset, pixel offset and zoom factor handled by this crate is an
//! exact rational number `num / den` with a positive denominator.  All
//! arithmetic on them is exact, so the coordinate-mapping laws (for example
//! the round trip between ticks and pixels) hold with equality rather than up
//! to a rounding error.
//!
//! Comparisons are total and never overflow (they are computed with 128-bit
//! intermediates).  Constructing a product or sum requires the caller to show
//! that the resulting numerator and denominator still fit in 64 bits; the
//! grid generator maintains bounds on all its state to discharge those
//! obligations.

use vstd::prelude::*;

verus! {

/// An exact rational number `num / den`.  Well-formed values have `den >= 1`.
#[derive(Clone, Copy, Debug, PartialEq, Eq, Structural)]
pub struct Rat {
    pub num: i64,
    pub den: i64,
}

impl Rat {
    /// Well-formedness: the denominator is positive.
    pub open spec fn wf(self) -> bool {
        self.den >= 1
    }

    /// `self <= other` as rational numbers (by cross multiplication).
    pub open spec fn le_q(self, other: Rat) -> bool {
        self.num * other.den <= other.num * self.den
    }

    /// `self < other` as rational numbers.
    pub open spec fn lt_q(self, other: Rat) -> bool {
        self.num * other.den < other.num * self.den
    }

    /// `self == other` as rational numbers.
    pub open spec fn eq_q(self, other: Rat) -> bool {
        self.num * other.den == other.num * self.den
    }

    /// `self < n` for an integer `n`.
    pub open spec fn lt_int(self, n: int) -> bool {
        self.num < n * self.den
    }

    /// `self == n` for an integer `n`.
    pub open spec fn eq_int(self, n: int) -> bool {
        self.num == n * self.den
    }

    /// The value is `>= 0`; for a well-formed rational this is just the sign
    /// of the numerator.
    pub open spec fn is_nonneg(self) -> bool {
        self.num >= 0
    }

    /// Exact comparison `self <= other`.  Never overflows.
    pub fn le(&self, other: &Rat) -> (r: bool)
        requires
            self.wf(),
            other.wf(),
        ensures
            r == self.le_q(*other),
    {
        let a: i128 = self.num as i128;
        let b: i128 = other.den as i128;
        let c: i128 = other.num as i128;
        let d: i128 = self.den as i128;
        proof {
            lemma_i64_mul_fits_i128(a as int, b as int);
            lemma_i64_mul_fits_i128(c as int, d as int);
        }
        a * b <= c * d
    }

    /// Exact comparison `self < other`.  Never overflows.
    pub fn lt(&self, other: &Rat) -> (r: bool)
        requires
            self.wf(),
            other.wf(),
        ensures
            r == self.lt_q(*other),
    {
        let a: i128 = self.num as i128;
        let b: i128 = other.den as i128;
        let c: i128 = other.num as i128;
        let d: i128 = self.den as i128;
        proof {
            lemma_i64_mul_fits_i128(a as int, b as int);
            lemma_i64_mul_fits_i128(c as int, d as int);
        }
        a * b < c * d
    }

    /// Exact product `self * other`, componentwise.
    pub fn mul(&self, other: &Rat) -> (r: Rat)
        requires
            self.wf(),
            other.wf(),
            -0x7fff_ffff_ffff_ffff <= self.num * other.num <= 0x7fff_ffff_ffff_ffff,
            self.den * other.den <= 0x7fff_ffff_ffff_ffff,
        ensures
            r.num == self.num * other.num,
            r.den == self.den * other.den,
            r.wf(),
    {
        let n: i128 = self.num as i128;
        let m: i128 = other.num as i128;
        let d: i128 = self.den as i128;
        let e: i128 = other.den as i128;
        proof {
            lemma_i64_mul_fits_i128(n as int, m as int);
            lemma_i64_mul_fits_i128(d as int, e as int);
            lemma_pos_mul_pos(self.den as int, other.den as int);
        }
        Rat { num: (n * m) as i64, den: (d * e) as i64 }
    }

    /// Exact quotient `self / other`, for a positive divisor.
    pub fn div(&self, other: &Rat) -> (r: Rat)
        requires
            self.wf(),
            other.wf(),
            other.num >= 1,
            -0x7fff_ffff_ffff_ffff <= self.num * other.den <= 0x7fff_ffff_ffff_ffff,
            self.den * other.num <= 0x7fff_ffff_ffff_ffff,
        ensures
            r.num == self.num * other.den,
            r.den == self.den * other.num,
            r.wf(),
    {
        let n: i128 = self.num as i128;
        let e: i128 = other.den as i128;
        let d: i128 = self.den as i128;
        let m: i128 = other.num as i128;
        proof {
            lemma_i64_mul_fits_i128(n as int, e as int);
            lemma_i64_mul_fits_i128(d as int, m as int);
            lemma_pos_mul_pos(self.den as int, other.num as int);
        }
        Rat { num: (n * e) as i64, den: (d * m) as i64 }
    }

    /// Exact difference `self - other`, componentwise over the common
    /// denominator.
    pub fn sub(&self, other: &Rat) -> (r: Rat)
        requires
            self.wf(),
            other.wf(),
            -0x7fff_ffff_ffff_ffff <= self.num * other.den <= 0x7fff_ffff_ffff_ffff,
            -0x7fff_ffff_ffff_ffff <= other.num * self.den <= 0x7fff_ffff_ffff_ffff,
            -0x7fff_ffff_ffff_ffff <= self.num * other.den - other.num * self.den
                <= 0x7fff_ffff_ffff_ffff,
            self.den * other.den <= 0x7fff_ffff_ffff_ffff,
        ensures
            r.num == self.num * other.den - other.num * self.den,
            r.den == self.den * other.den,
            r.wf(),
    {
        let a: i128 = self.num as i128;
        let b: i128 = other.den as i128;
        let c: i128 = other.num as i128;
        let d: i128 = self.den as i128;
        proof {
            lemma_i64_mul_fits_i128(a as int, b as int);
            lemma_i64_mul_fits_i128(c as int, d as int);
            lemma_pos_mul_pos(self.den as int, other.den as int);
        }
        Rat { num: (a * b - c * d) as i64, den: (d * b) as i64 }
    }

    /// Exact sum `self + other`, componentwise over the common denominator.
    pub fn add(&self, other: &Rat) -> (r: Rat)
        requires
            self.wf(),
            other.wf(),
            -0x7fff_ffff_ffff_ffff <= self.num * other.den <= 0x7fff_ffff_ffff_ffff,
            -0x7fff_ffff_ffff_ffff <= other.num * self.den <= 0x7fff_ffff_ffff_ffff,
            -0x7fff_ffff_ffff_ffff <= self.num * other.den + other.num * self.den
                <= 0x7fff_ffff_ffff_ffff,
            self.den * other.den <= 0x7fff_ffff_ffff_ffff,
        ensures
            r.num == self.num * other.den + other.num * self.den,
            r.den == self.den * other.den,
            r.wf(),
    {
        let a: i128 = self.num as i128;
        let b: i128 = other.den as i128;
        let c: i128 = other.num as i128;
        let d: i128 = self.den as i128;
        proof {
            lemma_i64_mul_fits_i128(a as int, b as int);
            lemma_i64_mul_fits_i128(c as int, d as int);
            lemma_pos_mul_pos(self.den as int, other.den as int);
        }
        Rat { num: (a * b + c * d) as i64, den: (d * b) as i64 }
    }

    /// Clamp a value to be at least zero: the value itself if nonnegative,
    /// zero otherwise.
    pub fn max_zero(&self) -> (r: Rat)
        requires
            self.wf(),
        ensures
            r.wf(),
            r.is_nonneg(),
            self.is_nonneg() ==> r == *self,
            !self.is_nonneg() ==> r.num == 0 && r.den == 1,
    {
        if self.num >= 0 {
            *self
        } else {
            Rat { num: 0, den: 1 }
        }
    }
}

/// `b - a >= g` as rational numbers (by cross multiplication over the
/// positive denominators).
pub open spec fn diff_at_least(a: Rat, b: Rat, g: Rat) -> bool {
    (b.num * a.den - a.num * b.den) * g.den >= g.num * (a.den * b.den)
}

/// The product of two values in the 64-bit signed range fits comfortably in
/// the 128-bit signed range.
pub proof fn lemma_i64_mul_fits_i128(a: int, b: int)
    by (nonlinear_arith)
    requires
        -0x8000_0000_0000_0000 <= a <= 0x7fff_ffff_ffff_ffff,
        -0x8000_0000_0000_0000 <= b <= 0x7fff_ffff_ffff_ffff,
    ensures
        -0x4000_0000_0000_0000_0000_0000_0000_0000 <= a * b
            <= 0x4000_0000_0000_0000_0000_0000_0000_0000,
{
}

/// Bounds on a product of nonnegative values from bounds on its factors.
pub proof fn lemma_mul_bounds(a: int, b: int, bound_a: int, bound_b: int)
    by (nonlinear_arith)
    requires
        0 <= a <= bound_a,
        0 <= b <= bound_b,
    ensures
        0 <= a * b <= bound_a * bound_b,
{
}

/// Bounds on a product from bounds on the magnitudes of its factors.
pub proof fn lemma_mul_abs_bounds(a: int, b: int, bound_a: int, bound_b: int)
    by (nonlinear_arith)
    requires
        0 <= bound_a,
        0 <= bound_b,
        -bound_a <= a <= bound_a,
        -bound_b <= b <= bound_b,
    ensures
        -(bound_a * bound_b) <= a * b <= bound_a * bound_b,
{
}

/// The product of two positive integers is positive.
pub proof fn lemma_pos_mul_pos(a: int, b: int)
    by (nonlinear_arith)
    requires
        a >= 1,
        b >= 1,
    ensures
        a * b >= 1,
{
}

/// Strict order on rationals is transitive.
pub proof fn lemma_lt_trans(a: Rat, b: Rat, c: Rat)
    by (nonlinear_arith)
    requires
        a.wf(),
        b.wf(),
        c.wf(),
        a.lt_q(b),
        b.lt_q(c),
    ensures
        a.lt_q(c),
{
}

} // verus!
