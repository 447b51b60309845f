//! Exact rational numbers.
//!
//! The scene language's scalar values are decimal literals; this library
//! models them, and everything computed from them, as exact fractions of
//! `i128` integers. All arithmetic is checked: an operation whose exact
//! result does not fit reports that instead of wrapping, and the contracts
//! say precisely when that happens.

use vstd::prelude::*;

verus! {

/// An exact rational number. The invariant `rat_wf` keeps the denominator
/// strictly positive; fractions are not kept reduced, so the contracts of
/// the arithmetic below are literal integer equalities.
#[derive(Clone, Copy, Debug, PartialEq, Eq, Structural)]
pub struct Rat {
    pub num: i128,
    pub den: i128,
}

/// Well-formedness: the denominator is strictly positive.
pub open spec fn rat_wf(r: Rat) -> bool {
    r.den > 0
}

/// The mathematical value of a `Rat`, as an unbounded numerator/denominator pair.
pub open spec fn ratp(r: Rat) -> (int, int) {
    (r.num as int, r.den as int)
}

/// Mathematical equality of two fractions: cross products agree.
pub open spec fn pair_eqv(a: (int, int), b: (int, int)) -> bool {
    a.0 * b.1 == b.0 * a.1
}

/// Mathematical equality of two `Rat`s.
pub open spec fn rat_eqv(a: Rat, b: Rat) -> bool {
    pair_eqv(ratp(a), ratp(b))
}

/// Exact sum of two fractions.
pub open spec fn padd(a: (int, int), b: (int, int)) -> (int, int) {
    (a.0 * b.1 + b.0 * a.1, a.1 * b.1)
}

/// Exact product of two fractions.
pub open spec fn pmul(a: (int, int), b: (int, int)) -> (int, int) {
    (a.0 * b.0, a.1 * b.1)
}

/// Exact negation of a fraction.
pub open spec fn pneg(a: (int, int)) -> (int, int) {
    (-a.0, a.1)
}

/// Whether an unbounded integer fits in `i128`.
pub open spec fn in_i128(x: int) -> bool {
    i128::MIN <= x <= i128::MAX
}

/// Whether every intermediate value of an exact fraction sum fits in `i128`.
pub open spec fn fits_padd(a: (int, int), b: (int, int)) -> bool {
    &&& in_i128(a.0 * b.1)
    &&& in_i128(b.0 * a.1)
    &&& in_i128(a.0 * b.1 + b.0 * a.1)
    &&& in_i128(a.1 * b.1)
}

/// Whether both components of an exact fraction product fit in `i128`.
pub open spec fn fits_pmul(a: (int, int), b: (int, int)) -> bool {
    &&& in_i128(a.0 * b.0)
    &&& in_i128(a.1 * b.1)
}

/// Whether every intermediate value of `try_add` fits in `i128`.
pub open spec fn fits_add(a: Rat, b: Rat) -> bool {
    fits_padd(ratp(a), ratp(b))
}

/// Whether every intermediate value of `try_mul` fits in `i128`.
pub open spec fn fits_mul(a: Rat, b: Rat) -> bool {
    fits_pmul(ratp(a), ratp(b))
}

impl Rat {
    /// A rational from a numerator and a positive denominator.
    pub fn new(num: i128, den: i128) -> (r: Rat)
        requires
            den > 0,
        ensures
            r.num == num,
            r.den == den,
            rat_wf(r),
    {
        Rat { num, den }
    }

    /// A rational equal to a whole number.
    pub fn from_int(num: i128) -> (r: Rat)
        ensures
            r.num == num,
            r.den == 1,
            rat_wf(r),
    {
        Rat { num, den: 1 }
    }

    /// Zero.
    pub fn zero() -> (r: Rat)
        ensures
            r.num == 0,
            r.den == 1,
            rat_wf(r),
    {
        Rat { num: 0, den: 1 }
    }

    /// One.
    pub fn one() -> (r: Rat)
        ensures
            r.num == 1,
            r.den == 1,
            rat_wf(r),
    {
        Rat { num: 1, den: 1 }
    }

    /// Exact sum. Returns `None` exactly when an intermediate value
    /// overflows `i128`.
    pub fn try_add(&self, other: &Rat) -> (r: Option<Rat>)
        requires
            rat_wf(*self),
            rat_wf(*other),
        ensures
            r is Some <==> fits_add(*self, *other),
            r matches Some(v) ==> rat_wf(v) && ratp(v) == padd(ratp(*self), ratp(*other)),
    {
        let p1 = match self.num.checked_mul(other.den) {
            Some(x) => x,
            None => { return None; },
        };
        let p2 = match other.num.checked_mul(self.den) {
            Some(x) => x,
            None => { return None; },
        };
        let n = match p1.checked_add(p2) {
            Some(x) => x,
            None => { return None; },
        };
        let d = match self.den.checked_mul(other.den) {
            Some(x) => x,
            None => { return None; },
        };
        proof {
            assert(self.den * other.den > 0) by (nonlinear_arith)
                requires self.den > 0, other.den > 0;
        }
        Some(Rat { num: n, den: d })
    }

    /// Exact product. Returns `None` exactly when the exact numerator or
    /// denominator overflows `i128`.
    pub fn try_mul(&self, other: &Rat) -> (r: Option<Rat>)
        requires
            rat_wf(*self),
            rat_wf(*other),
        ensures
            r is Some <==> fits_mul(*self, *other),
            r matches Some(v) ==> rat_wf(v) && ratp(v) == pmul(ratp(*self), ratp(*other)),
    {
        let n = match self.num.checked_mul(other.num) {
            Some(x) => x,
            None => { return None; },
        };
        let d = match self.den.checked_mul(other.den) {
            Some(x) => x,
            None => { return None; },
        };
        proof {
            assert(self.den * other.den > 0) by (nonlinear_arith)
                requires self.den > 0, other.den > 0;
        }
        Some(Rat { num: n, den: d })
    }

    /// Exact negation. Returns `None` exactly when the numerator is
    /// `i128::MIN`, whose negation does not fit.
    pub fn try_neg(&self) -> (r: Option<Rat>)
        requires
            rat_wf(*self),
        ensures
            r is Some <==> in_i128(-(self.num as int)),
            r matches Some(v) ==> rat_wf(v) && ratp(v) == pneg(ratp(*self)),
    {
        match (0i128).checked_sub(self.num) {
            Some(n) => Some(Rat { num: n, den: self.den }),
            None => None,
        }
    }

    /// Exact reciprocal, with the sign moved to the numerator so that the
    /// result's denominator stays positive. `None` when this rational is
    /// zero, or when its numerator is `i128::MIN` (whose negation does not
    /// fit).
    pub fn try_recip(&self) -> (r: Option<Rat>)
        requires
            rat_wf(*self),
        ensures
            r is Some <==> self.num != 0 && in_i128(-(self.num as int)),
            r matches Some(v) ==> rat_wf(v) && v.num * self.num == v.den * self.den
                && (v.num as int, v.den as int) == (
                    if self.num > 0 { (self.den as int, self.num as int) }
                    else { (-(self.den as int), -(self.num as int)) }
                ),
    {
        if self.num > 0 {
            Some(Rat { num: self.den, den: self.num })
        } else if self.num == 0 {
            None
        } else {
            let n = match (0i128).checked_sub(self.num) {
                Some(x) => x,
                None => { return None; },
            };
            let d = match (0i128).checked_sub(self.den) {
                Some(x) => x,
                None => { return None; },
            };
            proof {
                assert(d * self.num == n * self.den) by (nonlinear_arith)
                    requires d == -self.den, n == -self.num;
            }
            Some(Rat { num: d, den: n })
        }
    }

    /// Whether this rational is mathematically zero.
    pub fn is_zero(&self) -> (r: bool)
        requires
            rat_wf(*self),
        ensures
            r == (self.num == 0),
    {
        self.num == 0
    }
}


/// Greatest common divisor, by Euclid's algorithm. Only positivity is
/// claimed; `reduced` checks divisibility at run time instead of relying on
/// arithmetic facts about this function.
fn gcd_u128(a: u128, b: u128) -> (g: u128)
    requires
        a > 0,
    ensures
        g > 0,
    decreases b,
{
    if b == 0 {
        a
    } else {
        gcd_u128(b, a % b)
    }
}

impl Rat {
    /// A mathematically equal rational with numerator and denominator
    /// divided by their greatest common divisor. The division is checked at
    /// run time, so equality holds by construction.
    pub fn reduced(&self) -> (v: Rat)
        requires
            rat_wf(*self),
        ensures
            rat_wf(v),
            rat_eqv(v, *self),
    {
        if self.num == 0 {
            let v = Rat { num: 0, den: 1 };
            proof {
                assert(v.num * self.den == self.num * v.den) by (nonlinear_arith)
                    requires
                        v.num == 0,
                        self.num == 0,
                ;
            }
            return v;
        }
        let mag: u128 = if self.num > 0 {
            self.num as u128
        } else {
            (-(self.num as i128 + 1)) as u128 + 1
        };
        let g128 = gcd_u128(mag, self.den as u128);
        if g128 <= 1 || g128 > i128::MAX as u128 {
            return *self;
        }
        let g = g128 as i128;
        let n2 = self.num / g;
        let d2 = self.den / g;
        if d2 <= 0 {
            return *self;
        }
        let back_n = match n2.checked_mul(g) {
            Some(x) => x,
            None => { return *self; },
        };
        let back_d = match d2.checked_mul(g) {
            Some(x) => x,
            None => { return *self; },
        };
        if back_n == self.num && back_d == self.den {
            let v = Rat { num: n2, den: d2 };
            proof {
                assert(v.num * self.den == self.num * v.den) by (nonlinear_arith)
                    requires
                        self.num == v.num * g,
                        self.den == v.den * g,
                ;
            }
            v
        } else {
            *self
        }
    }
}

/// Exact sums respect mathematical equality of their operands.
pub proof fn lemma_padd_eqv(a: (int, int), a2: (int, int), b: (int, int), b2: (int, int))
    requires
        pair_eqv(a, a2),
        pair_eqv(b, b2),
    ensures
        pair_eqv(padd(a, b), padd(a2, b2)),
{
    assert((a.0 * b.1) * (a2.1 * b2.1) == (a.0 * a2.1) * (b.1 * b2.1)) by (nonlinear_arith);
    assert((a.0 * a2.1) * (b.1 * b2.1) == (a2.0 * a.1) * (b.1 * b2.1)) by (nonlinear_arith)
        requires
            a.0 * a2.1 == a2.0 * a.1,
    ;
    assert((a2.0 * a.1) * (b.1 * b2.1) == (a2.0 * b2.1) * (a.1 * b.1)) by (nonlinear_arith);
    assert((b.0 * a.1) * (a2.1 * b2.1) == (b.0 * b2.1) * (a.1 * a2.1)) by (nonlinear_arith);
    assert((b.0 * b2.1) * (a.1 * a2.1) == (b2.0 * b.1) * (a.1 * a2.1)) by (nonlinear_arith)
        requires
            b.0 * b2.1 == b2.0 * b.1,
    ;
    assert((b2.0 * b.1) * (a.1 * a2.1) == (b2.0 * a2.1) * (a.1 * b.1)) by (nonlinear_arith);
    assert((a.0 * b.1 + b.0 * a.1) * (a2.1 * b2.1) == (a.0 * b.1) * (a2.1 * b2.1) + (b.0 * a.1) * (
    a2.1 * b2.1)) by (nonlinear_arith);
    assert((a2.0 * b2.1 + b2.0 * a2.1) * (a.1 * b.1) == (a2.0 * b2.1) * (a.1 * b.1) + (b2.0 * a2.1)
        * (a.1 * b.1)) by (nonlinear_arith);
}

/// Exact products respect mathematical equality of their operands.
pub proof fn lemma_pmul_eqv(a: (int, int), a2: (int, int), b: (int, int), b2: (int, int))
    requires
        pair_eqv(a, a2),
        pair_eqv(b, b2),
    ensures
        pair_eqv(pmul(a, b), pmul(a2, b2)),
{
    assert((a.0 * b.0) * (a2.1 * b2.1) == (a2.0 * b2.0) * (a.1 * b.1)) by (nonlinear_arith)
        requires
            a.0 * a2.1 == a2.0 * a.1,
            b.0 * b2.1 == b2.0 * b.1,
    ;
}

/// Mathematical equality of fractions is transitive through a fraction
/// with a nonzero denominator.
pub proof fn lemma_pair_eqv_trans(a: (int, int), b: (int, int), c: (int, int))
    requires
        pair_eqv(a, b),
        pair_eqv(b, c),
        b.1 != 0,
    ensures
        pair_eqv(a, c),
{
    assert(a.0 * c.1 == c.0 * a.1) by (nonlinear_arith)
        requires
            a.0 * b.1 == b.0 * a.1,
            b.0 * c.1 == c.0 * b.1,
            b.1 != 0,
    ;
}

} // verus!
