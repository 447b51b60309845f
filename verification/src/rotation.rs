//! Rotation matrices about an arbitrary axis.
//!
//! The rotation production needs the sine and cosine of the declared angle
//! (radians) and the normalized axis. Within the exact-rational model these
//! are computed as rational approximations: a range-reduced Taylor series
//! for sine and cosine, Newton's method for the axis length. Nothing about
//! their numeric accuracy is claimed in contracts — only well-formedness —
//! and the transform algebra applied to the produced local matrix stays
//! exact.

use vstd::prelude::*;

use crate::error::{ErrorKind, TokenizationError};
use crate::matrix::{mat_wf, seq_rats_wf, Mat};
use crate::rat::{rat_wf, Rat};

verus! {

/// Intermediate values are rounded to this denominator to keep numerators
/// and denominators from growing without bound.
pub const ROUND_DEN: i128 = 1000000;

/// Round a rational towards zero onto the grid of multiples of
/// 1/`ROUND_DEN`. `None` when the scaled numerator leaves `i128`.
fn round_rat(r: &Rat) -> (o: Option<Rat>)
    requires
        rat_wf(*r),
    ensures
        o matches Some(v) ==> rat_wf(v) && v.den == ROUND_DEN,
        r.num == 0 ==> (o matches Some(v) && v.num == 0),
{
    let n = match r.num.checked_mul(ROUND_DEN) {
        Some(v) => v,
        None => { return None; },
    };
    let q = n / r.den;
    Some(Rat { num: q, den: ROUND_DEN })
}

/// Rounded sum.
fn approx_add(a: &Rat, b: &Rat) -> (o: Option<Rat>)
    requires
        rat_wf(*a),
        rat_wf(*b),
    ensures
        o matches Some(v) ==> rat_wf(v) && v.den == ROUND_DEN,
        (a.num == 0 && b.num == 0 && a.den * b.den <= i128::MAX) ==> (o matches Some(v) && v.num
            == 0),
{
    proof {
        if a.num == 0 && b.num == 0 && a.den * b.den <= i128::MAX {
            assert(a.num * b.den == 0 && b.num * a.den == 0) by (nonlinear_arith)
                requires
                    a.num == 0,
                    b.num == 0,
            ;
            assert(a.den * b.den > 0) by (nonlinear_arith)
                requires
                    a.den > 0,
                    b.den > 0,
            ;
        }
    }
    match a.try_add(b) {
        Some(v) => round_rat(&v),
        None => None,
    }
}

/// Rounded difference.
fn approx_sub(a: &Rat, b: &Rat) -> (o: Option<Rat>)
    requires
        rat_wf(*a),
        rat_wf(*b),
    ensures
        o matches Some(v) ==> rat_wf(v),
{
    match b.try_neg() {
        Some(nb) => approx_add(a, &nb),
        None => None,
    }
}

/// Rounded product.
fn approx_mul(a: &Rat, b: &Rat) -> (o: Option<Rat>)
    requires
        rat_wf(*a),
        rat_wf(*b),
    ensures
        o matches Some(v) ==> rat_wf(v) && v.den == ROUND_DEN,
        ((a.num == 0 || b.num == 0) && a.den * b.den <= i128::MAX) ==> (o matches Some(v)
            && v.num == 0),
{
    proof {
        if (a.num == 0 || b.num == 0) && a.den * b.den <= i128::MAX {
            assert(a.num * b.num == 0) by (nonlinear_arith)
                requires
                    a.num == 0 || b.num == 0,
            ;
            assert(a.den * b.den > 0) by (nonlinear_arith)
                requires
                    a.den > 0,
                    b.den > 0,
            ;
        }
    }
    match a.try_mul(b) {
        Some(v) => round_rat(&v),
        None => None,
    }
}

/// Rounded quotient. `None` when the divisor is zero or a value leaves
/// `i128`.
fn approx_div(a: &Rat, b: &Rat) -> (o: Option<Rat>)
    requires
        rat_wf(*a),
        rat_wf(*b),
    ensures
        o matches Some(v) ==> rat_wf(v),
{
    match b.try_recip() {
        Some(rb) => approx_mul(a, &rb),
        None => None,
    }
}

/// Approximations of the sine and cosine of an angle in radians: the angle
/// is reduced by whole turns, then a fixed-degree Taylor series is summed
/// with rounding.
fn sin_cos(angle: &Rat) -> (o: Option<(Rat, Rat)>)
    requires
        rat_wf(*angle),
    ensures
        o matches Some(sc) ==> rat_wf(sc.0) && rat_wf(sc.1),
{
    // 2*pi as 710/113, from the classical 355/113 approximation of pi.
    let two_pi = Rat::new(710, 113);
    let turns = match approx_div(angle, &two_pi) {
        Some(v) => v,
        None => { return None; },
    };
    let k = turns.num / turns.den;
    let whole = match two_pi.try_mul(&Rat::from_int(k)) {
        Some(v) => v,
        None => { return None; },
    };
    let x = match approx_sub(angle, &whole) {
        Some(v) => v,
        None => { return None; },
    };
    let x2 = match approx_mul(&x, &x) {
        Some(v) => v,
        None => { return None; },
    };
    // sin x = x - x^3/6 + x^5/120 - x^7/5040
    let x3 = match approx_mul(&x2, &x) {
        Some(v) => v,
        None => { return None; },
    };
    let x5 = match approx_mul(&x3, &x2) {
        Some(v) => v,
        None => { return None; },
    };
    let x7 = match approx_mul(&x5, &x2) {
        Some(v) => v,
        None => { return None; },
    };
    let t3 = match approx_mul(&x3, &Rat::new(1, 6)) {
        Some(v) => v,
        None => { return None; },
    };
    let t5 = match approx_mul(&x5, &Rat::new(1, 120)) {
        Some(v) => v,
        None => { return None; },
    };
    let t7 = match approx_mul(&x7, &Rat::new(1, 5040)) {
        Some(v) => v,
        None => { return None; },
    };
    let s1 = match approx_sub(&x, &t3) {
        Some(v) => v,
        None => { return None; },
    };
    let s2 = match approx_add(&s1, &t5) {
        Some(v) => v,
        None => { return None; },
    };
    let sin = match approx_sub(&s2, &t7) {
        Some(v) => v,
        None => { return None; },
    };
    // cos x = 1 - x^2/2 + x^4/24 - x^6/720 + x^8/40320
    let x4 = match approx_mul(&x2, &x2) {
        Some(v) => v,
        None => { return None; },
    };
    let x6 = match approx_mul(&x4, &x2) {
        Some(v) => v,
        None => { return None; },
    };
    let x8 = match approx_mul(&x6, &x2) {
        Some(v) => v,
        None => { return None; },
    };
    let u2 = match approx_mul(&x2, &Rat::new(1, 2)) {
        Some(v) => v,
        None => { return None; },
    };
    let u4 = match approx_mul(&x4, &Rat::new(1, 24)) {
        Some(v) => v,
        None => { return None; },
    };
    let u6 = match approx_mul(&x6, &Rat::new(1, 720)) {
        Some(v) => v,
        None => { return None; },
    };
    let u8 = match approx_mul(&x8, &Rat::new(1, 40320)) {
        Some(v) => v,
        None => { return None; },
    };
    let c1 = match approx_sub(&Rat::one(), &u2) {
        Some(v) => v,
        None => { return None; },
    };
    let c2 = match approx_add(&c1, &u4) {
        Some(v) => v,
        None => { return None; },
    };
    let c3 = match approx_sub(&c2, &u6) {
        Some(v) => v,
        None => { return None; },
    };
    let cos = match approx_add(&c3, &u8) {
        Some(v) => v,
        None => { return None; },
    };
    Some((sin, cos))
}

/// An approximation of the square root of a positive rational by Newton's
/// method. `None` when the iteration leaves `i128` or degenerates.
fn sqrt_approx(v: &Rat) -> (o: Option<Rat>)
    requires
        rat_wf(*v),
        v.num > 0,
    ensures
        o matches Some(r) ==> rat_wf(r) && r.num > 0,
{
    let mut t = Rat::one();
    let mut it: usize = 0;
    while it < 24
        invariant
            rat_wf(t),
            t.num > 0,
            rat_wf(*v),
        decreases 24 - it,
    {
        let q = match approx_div(v, &t) {
            Some(x) => x,
            None => { return None; },
        };
        let sum = match approx_add(&t, &q) {
            Some(x) => x,
            None => { return None; },
        };
        let next = match approx_mul(&sum, &Rat::new(1, 2)) {
            Some(x) => x,
            None => { return None; },
        };
        if next.num <= 0 {
            return None;
        }
        t = next;
        it += 1;
    }
    Some(t)
}

/// The range error every approximation failure maps to.
fn range_err() -> (e: TokenizationError)
    ensures
        e.kind == ErrorKind::NumericRange,
{
    TokenizationError::of_kind(ErrorKind::NumericRange, "rotation: value out of range")
}

/// The local matrix of `rotate(x, y, z, angle, ...)`: a rotation about the
/// axis `(x, y, z)` (normalized here) by `angle` radians, as a 4x4 affine
/// matrix over approximate rational entries. Fails with a semantic error
/// for a zero axis and with a range error when a value leaves `i128`; the
/// exactly zero axis (with denominators small enough to square) is owed
/// the semantic error.
pub fn rotation_matrix(x: &Rat, y: &Rat, z: &Rat, angle: &Rat) -> (r: Result<
    Mat,
    TokenizationError,
>)
    requires
        rat_wf(*x),
        rat_wf(*y),
        rat_wf(*z),
        rat_wf(*angle),
    ensures
        r matches Ok(m) ==> mat_wf(m) && m.n == 4,
        r matches Err(e) ==> e.kind == ErrorKind::Semantic || e.kind == ErrorKind::NumericRange,
        (x.num == 0 && y.num == 0 && z.num == 0 && x.den <= 1000000000000000000 && y.den
            <= 1000000000000000000 && z.den <= 1000000000000000000) ==> (r matches Err(e)
            && e.kind == ErrorKind::Semantic),
{
    proof {
        assert((0 < x.den <= 1000000000000000000) ==> x.den * x.den <= i128::MAX)
            by (nonlinear_arith);
        assert((0 < y.den <= 1000000000000000000) ==> y.den * y.den <= i128::MAX)
            by (nonlinear_arith);
        assert((0 < z.den <= 1000000000000000000) ==> z.den * z.den <= i128::MAX)
            by (nonlinear_arith);
    }
    let xx = match approx_mul(x, x) {
        Some(v) => v,
        None => { return Err(range_err()); },
    };
    let yy = match approx_mul(y, y) {
        Some(v) => v,
        None => { return Err(range_err()); },
    };
    let zz = match approx_mul(z, z) {
        Some(v) => v,
        None => { return Err(range_err()); },
    };
    proof {
        assert((xx.den == ROUND_DEN && yy.den == ROUND_DEN) ==> xx.den * yy.den <= i128::MAX)
            by (nonlinear_arith);
    }
    let s1 = match approx_add(&xx, &yy) {
        Some(v) => v,
        None => { return Err(range_err()); },
    };
    proof {
        assert((s1.den == ROUND_DEN && zz.den == ROUND_DEN) ==> s1.den * zz.den <= i128::MAX)
            by (nonlinear_arith);
    }
    let n2 = match approx_add(&s1, &zz) {
        Some(v) => v,
        None => { return Err(range_err()); },
    };
    if n2.num <= 0 {
        return Err(TokenizationError::of_kind(
            ErrorKind::Semantic,
            "degenerate rotation axis",
        ));
    }
    let len = match sqrt_approx(&n2) {
        Some(v) => v,
        None => { return Err(range_err()); },
    };
    let ux = match approx_div(x, &len) {
        Some(v) => v,
        None => { return Err(range_err()); },
    };
    let uy = match approx_div(y, &len) {
        Some(v) => v,
        None => { return Err(range_err()); },
    };
    let uz = match approx_div(z, &len) {
        Some(v) => v,
        None => { return Err(range_err()); },
    };
    let sc = match sin_cos(angle) {
        Some(v) => v,
        None => { return Err(range_err()); },
    };
    let sin = sc.0;
    let cos = sc.1;
    let omc = match approx_sub(&Rat::one(), &cos) {
        Some(v) => v,
        None => { return Err(range_err()); },
    };
    // Rodrigues' formula, one entry at a time: diag(i) = c + u_i^2 (1-c);
    // off-diagonal = u_i u_j (1-c) +/- u_k s.
    let mut ent: Vec<Rat> = Vec::new();
    let mut row: usize = 0;
    while row < 3
        invariant
            rat_wf(ux) && rat_wf(uy) && rat_wf(uz),
            rat_wf(sin) && rat_wf(cos) && rat_wf(omc),
            row <= 3,
            ent.len() == row * 4,
            seq_rats_wf(ent@),
            !(x.num == 0 && y.num == 0 && z.num == 0 && x.den <= 1000000000000000000
                && y.den <= 1000000000000000000 && z.den <= 1000000000000000000),
        decreases 3 - row,
    {
        let mut col: usize = 0;
        while col < 4
            invariant
                rat_wf(ux) && rat_wf(uy) && rat_wf(uz),
                rat_wf(sin) && rat_wf(cos) && rat_wf(omc),
                row < 3,
                col <= 4,
                ent.len() == row * 4 + col,
                seq_rats_wf(ent@),
                    !(x.num == 0 && y.num == 0 && z.num == 0 && x.den <= 1000000000000000000
                && y.den <= 1000000000000000000 && z.den <= 1000000000000000000),
            decreases 4 - col,
        {
            if col == 3 {
                ent.push(Rat::zero());
            } else {
                let ui = if row == 0 {
                    ux
                } else if row == 1 {
                    uy
                } else {
                    uz
                };
                let uj = if col == 0 {
                    ux
                } else if col == 1 {
                    uy
                } else {
                    uz
                };
                let prod = match approx_mul(&ui, &uj) {
                    Some(v) => v,
                    None => { return Err(range_err()); },
                };
                let base = match approx_mul(&prod, &omc) {
                    Some(v) => v,
                    None => { return Err(range_err()); },
                };
                let e = if row == col {
                    match approx_add(&base, &cos) {
                        Some(v) => v,
                        None => { return Err(range_err()); },
                    }
                } else {
                    // The third axis component, with the sign of the
                    // Levi-Civita symbol for (row, col).
                    let uk = if (row == 1 && col == 2) || (row == 2 && col == 1) {
                        ux
                    } else if (row == 0 && col == 2) || (row == 2 && col == 0) {
                        uy
                    } else {
                        uz
                    };
                    let sk = match approx_mul(&uk, &sin) {
                        Some(v) => v,
                        None => { return Err(range_err()); },
                    };
                    let positive = (row == 1 && col == 0) || (row == 2 && col == 1) || (row == 0
                        && col == 2);
                    if positive {
                        match approx_add(&base, &sk) {
                            Some(v) => v,
                            None => { return Err(range_err()); },
                        }
                    } else {
                        match approx_sub(&base, &sk) {
                            Some(v) => v,
                            None => { return Err(range_err()); },
                        }
                    }
                };
                ent.push(e);
            }
            col += 1;
        }
        row += 1;
    }
    ent.push(Rat::zero());
    ent.push(Rat::zero());
    ent.push(Rat::zero());
    ent.push(Rat::one());
    Ok(Mat { n: 4, e: ent })
}

} // verus!
