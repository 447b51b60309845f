//! Exact square matrices over rationals, sized 3x3 or 4x4.
//!
//! Multiplication is exact up to fraction reduction: the contract of
//! `try_mul_mat` states that every entry of the result is mathematically
//! equal to the exact dot-product fraction (entries are kept reduced so that
//! denominators stay small). Inversion is certifying: a candidate
//! inverse is computed by Gauss-Jordan elimination (about which nothing needs
//! to be trusted) and then checked by multiplying back; the contract of
//! `try_invert` therefore guarantees that an `Ok` result is a genuine
//! two-sided inverse.

use vstd::prelude::*;
use vstd::arithmetic::div_mod::lemma_fundamental_div_mod_converse;

use crate::error::{ErrorKind, TokenizationError};
use crate::rat::{
    lemma_padd_eqv, lemma_pair_eqv_trans, lemma_pmul_eqv, padd, pair_eqv, pmul, rat_wf, ratp, Rat,
};

verus! {

/// A square matrix of exact rationals in row-major order.
#[derive(Debug)]
pub struct Mat {
    pub n: usize,
    pub e: Vec<Rat>,
}

/// Every rational of a sequence is well-formed.
pub open spec fn seq_rats_wf(e: Seq<Rat>) -> bool {
    forall|k: int| 0 <= k < e.len() ==> rat_wf(#[trigger] e[k])
}

/// Well-formedness of a matrix: dimension 3 or 4, a full row-major entry
/// vector, and well-formed entries.
pub open spec fn mat_wf(m: Mat) -> bool {
    &&& (m.n == 3 || m.n == 4)
    &&& m.e.len() == m.n * m.n
    &&& seq_rats_wf(m.e@)
}

/// The (i, j) entry of a row-major n-by-n sequence, as a fraction.
pub open spec fn entv(e: Seq<Rat>, n: int, i: int, j: int) -> (int, int) {
    ratp(e[i * n + j])
}

/// The exact value of `sum over t in 0..=k of a[i,t] * b[t,j]`.
pub open spec fn dotv(a: Seq<Rat>, b: Seq<Rat>, n: int, i: int, j: int, k: nat) -> (int, int)
    decreases k,
{
    if k == 0 {
        pmul(entv(a, n, i, 0), entv(b, n, 0, j))
    } else {
        padd(
            dotv(a, b, n, i, j, (k - 1) as nat),
            pmul(entv(a, n, i, k as int), entv(b, n, k as int, j)),
        )
    }
}

/// The exact (i, j) entry of the matrix product of two n-by-n sequences.
pub open spec fn mul_entry(a: Seq<Rat>, b: Seq<Rat>, n: int, i: int, j: int) -> (int, int) {
    dotv(a, b, n, i, j, (n - 1) as nat)
}

/// `r` holds the entries of the matrix product `a * b`: each entry is
/// mathematically equal to the exact dot-product fraction.
pub open spec fn mul_ok(r: Seq<Rat>, a: Seq<Rat>, b: Seq<Rat>, n: int) -> bool {
    forall|i: int, j: int|
        0 <= i < n && 0 <= j < n ==> pair_eqv(entv(r, n, i, j), mul_entry(a, b, n, i, j))
}

/// Exact dot-product fractions of well-formed matrices have positive
/// denominators.
pub proof fn lemma_dotv_den_pos(a: Seq<Rat>, b: Seq<Rat>, n: int, i: int, j: int, k: nat)
    requires
        seq_rats_wf(a),
        seq_rats_wf(b),
        a.len() == n * n,
        b.len() == n * n,
        0 <= i < n,
        0 <= j < n,
        k < n,
    ensures
        dotv(a, b, n, i, j, k).1 > 0,
    decreases k,
{
    lemma_rc_index(n, i, k as int);
    lemma_rc_index(n, k as int, j);
    lemma_rc_index(n, i, 0);
    lemma_rc_index(n, 0, j);
    assert(rat_wf(a[i * n + k as int]));
    assert(rat_wf(b[k as int * n + j]));
    assert(rat_wf(a[i * n + 0]));
    assert(rat_wf(b[0 * n + j]));
    if k == 0 {
        assert(entv(a, n, i, 0).1 * entv(b, n, 0, j).1 > 0) by (nonlinear_arith)
            requires
                entv(a, n, i, 0).1 > 0,
                entv(b, n, 0, j).1 > 0,
        ;
    } else {
        lemma_dotv_den_pos(a, b, n, i, j, (k - 1) as nat);
        let prev = dotv(a, b, n, i, j, (k - 1) as nat);
        let da = entv(a, n, i, k as int).1;
        let db = entv(b, n, k as int, j).1;
        assert(da > 0);
        assert(db > 0);
        assert(da * db > 0) by (nonlinear_arith)
            requires
                da > 0,
                db > 0,
        ;
        let td = da * db;
        assert(dotv(a, b, n, i, j, k) == padd(
            prev,
            pmul(entv(a, n, i, k as int), entv(b, n, k as int, j)),
        ));
        assert(dotv(a, b, n, i, j, k).1 == prev.1 * td);
        assert(prev.1 * td > 0) by (nonlinear_arith)
            requires
                prev.1 > 0,
                td > 0,
        ;
    }
}

/// Column `j` holds exact zeros: every entry of it has numerator zero.
/// Such a matrix is singular, and `lemma_zero_col_not_invertible` below
/// refutes any certified inverse of it.
pub open spec fn zero_col(e: Seq<Rat>, n: int, j: int) -> bool {
    forall|k: int| 0 <= k < n ==> (#[trigger] entv(e, n, k, j)).0 == 0
}

/// A dot product against a zero column has numerator zero.
proof fn lemma_dotv_zero_col(a: Seq<Rat>, b: Seq<Rat>, n: int, i: int, j: int, k: nat)
    requires
        zero_col(b, n, j),
        0 <= j < n,
        k < n,
    ensures
        dotv(a, b, n, i, j, k).0 == 0,
    decreases k,
{
    if k == 0 {
        let x = entv(a, n, i, 0);
        let y = entv(b, n, 0, j);
        assert(y.0 == 0);
        assert(x.0 * y.0 == 0) by (nonlinear_arith)
            requires
                y.0 == 0,
        ;
    } else {
        lemma_dotv_zero_col(a, b, n, i, j, (k - 1) as nat);
        let prev = dotv(a, b, n, i, j, (k - 1) as nat);
        let x = entv(a, n, i, k as int);
        let y = entv(b, n, k as int, j);
        assert(y.0 == 0);
        let t = pmul(x, y);
        assert(t.0 == 0) by (nonlinear_arith)
            requires
                t.0 == x.0 * y.0,
                y.0 == 0,
        ;
        let cur = padd(prev, t);
        assert(cur.0 == prev.0 * t.1 + t.0 * prev.1);
        assert(cur.0 == 0) by (nonlinear_arith)
            requires
                cur.0 == prev.0 * t.1 + t.0 * prev.1,
                prev.0 == 0,
                t.0 == 0,
        ;
    }
}

/// The exact product of any matrix with one holding a zero column has that
/// zero column too.
pub proof fn lemma_mul_zero_col(r: Seq<Rat>, a: Seq<Rat>, b: Seq<Rat>, n: int, j: int)
    requires
        mul_ok(r, a, b, n),
        seq_rats_wf(r),
        seq_rats_wf(a),
        seq_rats_wf(b),
        r.len() == n * n,
        a.len() == n * n,
        b.len() == n * n,
        zero_col(b, n, j),
        0 <= j < n,
    ensures
        zero_col(r, n, j),
{
    assert forall|k: int| 0 <= k < n implies (#[trigger] entv(r, n, k, j)).0 == 0 by {
        lemma_dotv_zero_col(a, b, n, k, j, (n - 1) as nat);
        lemma_dotv_den_pos(a, b, n, k, j, (n - 1) as nat);
        let re = entv(r, n, k, j);
        let me = mul_entry(a, b, n, k, j);
        assert(pair_eqv(re, me));
        lemma_rc_index(n, k, j);
        assert(rat_wf(r[k * n + j]));
        assert(re.0 == 0) by (nonlinear_arith)
            requires
                re.0 * me.1 == me.0 * re.1,
                me.0 == 0,
                me.1 > 0,
        ;
    }
}

/// A matrix with a column of exact zeros has no certified left inverse:
/// the diagonal entry of the product in that column is zero, never one.
pub proof fn lemma_zero_col_not_invertible(c: Seq<Rat>, w: Seq<Rat>, n: int, j: int)
    requires
        seq_rats_wf(w),
        seq_rats_wf(c),
        w.len() == n * n,
        c.len() == n * n,
        zero_col(c, n, j),
        0 <= j < n,
    ensures
        !prod_is_identity(w, c, n),
{
    lemma_dotv_zero_col(w, c, n, j, j, (n - 1) as nat);
    lemma_dotv_den_pos(w, c, n, j, j, (n - 1) as nat);
    assert(mul_entry(w, c, n, j, j).0 == 0);
    assert(mul_entry(w, c, n, j, j).1 > 0);
}

/// A product matrix whose stored (reduced) entries hold the identity
/// certifies that the exact product is the identity.
pub proof fn lemma_identity_transfer(p: &Mat, a: Seq<Rat>, b: Seq<Rat>, gn: int)
    requires
        mat_wf(*p),
        gn == p.n as int,
        mul_ok(p.e@, a, b, gn),
        holds_identity(p.e@, gn),
    ensures
        prod_is_identity(a, b, gn),
{
    assert forall|i: int, j: int| 0 <= i < gn && 0 <= j < gn implies {
        if i == j {
            (#[trigger] mul_entry(a, b, gn, i, j)).0 == mul_entry(a, b, gn, i, j).1
        } else {
            mul_entry(a, b, gn, i, j).0 == 0
        }
    } by {
        let pe = entv(p.e@, gn, i, j);
        let me = mul_entry(a, b, gn, i, j);
        lemma_rc_index(gn, i, j);
        assert(rat_wf(p.e@[i * gn + j]));
        assert(pair_eqv(pe, me));
        assert(pe.1 > 0);
        if i == j {
            assert(me.0 == me.1) by (nonlinear_arith)
                requires
                    pe.0 * me.1 == me.0 * pe.1,
                    pe.0 == pe.1,
                    pe.1 > 0,
            ;
        } else {
            assert(me.0 == 0) by (nonlinear_arith)
                requires
                    pe.0 * me.1 == me.0 * pe.1,
                    pe.0 == 0,
                    pe.1 > 0,
            ;
        }
    }
}

/// The matrix product `a * b` is mathematically the identity: each diagonal
/// entry's fraction equals one and each off-diagonal entry's numerator is
/// zero. (Denominators of products of well-formed entries are positive, so
/// numerator-equals-denominator does mean the value one.)
pub open spec fn prod_is_identity(a: Seq<Rat>, b: Seq<Rat>, n: int) -> bool {
    forall|i: int, j: int|
        0 <= i < n && 0 <= j < n ==> {
            if i == j {
                (#[trigger] mul_entry(a, b, n, i, j)).0 == mul_entry(a, b, n, i, j).1
            } else {
                mul_entry(a, b, n, i, j).0 == 0
            }
        }
}

/// Entry values of the mathematical identity matrix.
pub open spec fn ident_entry(i: int, j: int) -> (int, int) {
    if i == j {
        (1int, 1int)
    } else {
        (0int, 1int)
    }
}

/// The entries of `e` hold the identity: diagonal fractions equal one,
/// off-diagonal numerators are zero.
pub open spec fn holds_identity(e: Seq<Rat>, n: int) -> bool {
    forall|i: int, j: int|
        0 <= i < n && 0 <= j < n ==> {
            if i == j {
                (#[trigger] entv(e, n, i, j)).0 == entv(e, n, i, j).1
            } else {
                entv(e, n, i, j).0 == 0
            }
        }
}

/// The transpose of a row-major n-by-n sequence.
pub open spec fn transpose_seq(e: Seq<Rat>, n: int) -> Seq<Rat> {
    Seq::new((n * n) as nat, |k: int| e[(k % n) * n + k / n])
}

/// The upper-left 3x3 block of a row-major 4x4 sequence.
pub open spec fn upper3_seq(e: Seq<Rat>) -> Seq<Rat> {
    Seq::new(9, |k: int| e[(k / 3) * 4 + (k % 3)])
}

/// Row-column index arithmetic stays inside an n-by-n matrix.
pub proof fn lemma_rc_index(n: int, i: int, j: int)
    requires
        0 <= i < n,
        0 <= j < n,
    ensures
        0 <= i * n + j < n * n,
        (i * n + j) / n == i,
        (i * n + j) % n == j,
{
    assert(0 <= i * n + j < n * n) by (nonlinear_arith)
        requires 0 <= i < n, 0 <= j < n;
    lemma_fundamental_div_mod_converse(i * n + j, n, i, j);
}

/// Read entry (i, j).
fn vget(e: &Vec<Rat>, n: usize, i: usize, j: usize) -> (r: Rat)
    requires
        n <= 4,
        e.len() == n * n,
        seq_rats_wf(e@),
        i < n,
        j < n,
    ensures
        r == e@[i as int * n as int + j as int],
        rat_wf(r),
{
    proof {
        lemma_rc_index(n as int, i as int, j as int);
    }
    e[i * n + j]
}

/// Write entry (i, j).
fn vput(e: &mut Vec<Rat>, n: usize, i: usize, j: usize, v: Rat) -> (r: ())
    requires
        n <= 4,
        old(e).len() == n * n,
        i < n,
        j < n,
    ensures
        final(e)@ == old(e)@.update(i as int * n as int + j as int, v),
        final(e).len() == old(e).len(),
{
    proof {
        lemma_rc_index(n as int, i as int, j as int);
    }
    e[i * n + j] = v;
}

impl Mat {
    /// The identity matrix of dimension n.
    pub fn identity(n: usize) -> (r: Mat)
        requires
            n == 3 || n == 4,
        ensures
            mat_wf(r),
            r.n == n,
            forall|i: int, j: int|
                0 <= i < n && 0 <= j < n ==> entv(r.e@, n as int, i, j) == ident_entry(i, j),
            holds_identity(r.e@, n as int),
    {
        let mut e: Vec<Rat> = Vec::new();
        let total = n * n;
        let mut k: usize = 0;
        while k < total
            invariant
                n == 3 || n == 4,
                total == n * n,
                k <= total,
                e.len() == k,
                forall|t: int|
                    0 <= t < k ==> #[trigger] e@[t] == (if t / (n as int) == t % (n as int) {
                        (Rat { num: 1, den: 1 })
                    } else {
                        (Rat { num: 0, den: 1 })
                    }),
            decreases total - k,
        {
            if k / n == k % n {
                e.push(Rat::one());
            } else {
                e.push(Rat::zero());
            }
            k += 1;
        }
        proof {
            assert forall|i: int, j: int| 0 <= i < n && 0 <= j < n implies entv(
                e@,
                n as int,
                i,
                j,
            ) == ident_entry(i, j) by {
                lemma_rc_index(n as int, i, j);
            }
            assert(seq_rats_wf(e@));
        }
        Mat { n, e }
    }

    /// The transpose.
    pub fn transpose(&self) -> (r: Mat)
        requires
            mat_wf(*self),
        ensures
            mat_wf(r),
            r.n == self.n,
            r.e@ == transpose_seq(self.e@, self.n as int),
            forall|i: int, j: int|
                0 <= i < self.n && 0 <= j < self.n ==> entv(r.e@, self.n as int, i, j) == entv(
                    self.e@,
                    self.n as int,
                    j,
                    i,
                ),
    {
        let n = self.n;
        let mut e: Vec<Rat> = Vec::new();
        let mut i: usize = 0;
        while i < n
            invariant
                mat_wf(*self),
                n == self.n,
                i <= n,
                e.len() == i * n,
                forall|i2: int, j2: int|
                    0 <= i2 < i && 0 <= j2 < n ==> #[trigger] e@[i2 * n as int + j2]
                        == self.e@[j2 * n as int + i2],
            decreases n - i,
        {
            let mut j: usize = 0;
            while j < n
                invariant
                    mat_wf(*self),
                    n == self.n,
                    i < n,
                    j <= n,
                    e.len() == i * n + j,
                    forall|i2: int, j2: int|
                        0 <= i2 < i && 0 <= j2 < n ==> #[trigger] e@[i2 * n as int + j2]
                            == self.e@[j2 * n as int + i2],
                    forall|j2: int|
                        0 <= j2 < j ==> #[trigger] e@[i as int * n as int + j2]
                            == self.e@[j2 * n as int + i as int],
                decreases n - j,
            {
                proof {
                    lemma_rc_index(n as int, i as int, j as int);
                    lemma_rc_index(n as int, j as int, i as int);
                }
                let v = vget(&self.e, n, j, i);
                e.push(v);
                j += 1;
                proof {
                    assert(e.len() == i * n + j) by (nonlinear_arith)
                        requires
                            e.len() == i * n + (j - 1) + 1,
                    ;
                    assert forall|i2: int, j2: int| 0 <= i2 < i && 0 <= j2 < n implies #[trigger] e@[
                        i2 * n as int + j2
                    ] == self.e@[j2 * n as int + i2] by {
                        assert(0 <= i2 * n as int + j2 < e.len() - 1) by (nonlinear_arith)
                            requires
                                0 <= i2 < i,
                                0 <= j2 < n,
                                e.len() == i * n + j,
                                j >= 1,
                        ;
                    }
                    assert forall|j2: int| 0 <= j2 < j implies #[trigger] e@[
                        i as int * n as int + j2
                    ] == self.e@[j2 * n as int + i as int] by {
                        assert(0 <= i as int * n as int + j2 < e.len()) by (nonlinear_arith)
                            requires
                                0 <= j2 < j,
                                j <= n,
                                e.len() == i * n + j,
                        ;
                        if j2 == j - 1 {
                            assert(i as int * n as int + j2 == e.len() - 1) by (nonlinear_arith)
                                requires
                                    e.len() == i * n + j,
                                    j2 == j - 1,
                            ;
                        }
                    }
                }
            }
            i += 1;
            proof {
                assert(e.len() == i * n) by (nonlinear_arith)
                    requires
                        e.len() == (i - 1) * n + n,
                ;
            }
        }
        proof {
            assert(e.len() == n * n) by (nonlinear_arith)
                requires
                    e.len() == n * n,
            ;
            assert forall|k: int| 0 <= k < n * n implies e@[k] == self.e@[
                (k % n as int) * n as int + k / n as int
            ] by {
                let i = k / n as int;
                let j = k % n as int;
                vstd::arithmetic::div_mod::lemma_fundamental_div_mod(k, n as int);
                assert(0 <= j < n) by {
                    vstd::arithmetic::div_mod::lemma_mod_bound(k, n as int);
                }
                assert(0 <= i < n) by (nonlinear_arith)
                    requires
                        k == n as int * i + j,
                        0 <= k < n * n,
                        0 <= j < n,
                        n > 0,
                ;
                assert(e@[i * n as int + j] == self.e@[j * n as int + i]);
                assert(k == i * n as int + j) by (nonlinear_arith)
                    requires
                        k == n as int * i + j,
                ;
            }
            assert(e@ =~= transpose_seq(self.e@, n as int));
            assert forall|i: int, j: int| 0 <= i < n && 0 <= j < n implies entv(
                e@,
                n as int,
                i,
                j,
            ) == entv(self.e@, n as int, j, i) by {
                lemma_rc_index(n as int, i, j);
                lemma_rc_index(n as int, j, i);
            }
            assert forall|k: int| 0 <= k < e@.len() implies rat_wf(#[trigger] e@[k]) by {
                let i = k / n as int;
                let j = k % n as int;
                vstd::arithmetic::div_mod::lemma_fundamental_div_mod(k, n as int);
                vstd::arithmetic::div_mod::lemma_mod_bound(k, n as int);
                assert(0 <= i < n) by (nonlinear_arith)
                    requires
                        k == n as int * i + j,
                        0 <= k < n * n,
                        0 <= j < n,
                        n > 0,
                ;
                lemma_rc_index(n as int, i, j);
                assert(e@[i * n as int + j] == self.e@[j * n as int + i]);
                lemma_rc_index(n as int, j, i);
                assert(k == i * n as int + j) by (nonlinear_arith)
                    requires
                        k == n as int * i + j,
                ;
            }
        }
        Mat { n, e }
    }

    /// Matrix product with entries kept reduced: every entry of a `Some`
    /// result is mathematically equal to the exact dot-product fraction.
    /// `None` reports that an intermediate value left `i128`.
    pub fn try_mul_mat(&self, other: &Mat) -> (r: Option<Mat>)
        requires
            mat_wf(*self),
            mat_wf(*other),
            self.n == other.n,
        ensures
            r matches Some(m) ==> mat_wf(m) && m.n == self.n && mul_ok(
                m.e@,
                self.e@,
                other.e@,
                self.n as int,
            ),
    {
        let n = self.n;
        let ghost gn = n as int;
        let mut e: Vec<Rat> = Vec::new();
        let mut i: usize = 0;
        while i < n
            invariant
                mat_wf(*self),
                mat_wf(*other),
                self.n == other.n,
                n == self.n,
                gn == n as int,
                i <= n,
                e.len() == i * n,
                seq_rats_wf(e@),
                forall|i2: int, j2: int|
                    0 <= i2 < i && 0 <= j2 < n ==> pair_eqv(
                        ratp(#[trigger] e@[i2 * gn + j2]),
                        mul_entry(self.e@, other.e@, gn, i2, j2),
                    ),
            decreases n - i,
        {
            let mut j: usize = 0;
            while j < n
                invariant
                    mat_wf(*self),
                    mat_wf(*other),
                    self.n == other.n,
                    n == self.n,
                    gn == n as int,
                    i < n,
                    j <= n,
                    e.len() == i * n + j,
                    seq_rats_wf(e@),
                    forall|i2: int, j2: int|
                        0 <= i2 < i && 0 <= j2 < n ==> pair_eqv(
                            ratp(#[trigger] e@[i2 * gn + j2]),
                            mul_entry(self.e@, other.e@, gn, i2, j2),
                        ),
                    forall|j2: int|
                        0 <= j2 < j ==> pair_eqv(
                            ratp(#[trigger] e@[i as int * gn + j2]),
                            mul_entry(self.e@, other.e@, gn, i as int, j2),
                        ),
                decreases n - j,
            {
                let a0 = vget(&self.e, n, i, 0);
                let b0 = vget(&other.e, n, 0, j);
                let raw0 = match a0.try_mul(&b0) {
                    Some(v) => v,
                    None => { return None; },
                };
                let mut acc = raw0.reduced();
                proof {
                    lemma_rc_index(gn, i as int, 0);
                    lemma_rc_index(gn, 0, j as int);
                    assert(ratp(raw0) == dotv(self.e@, other.e@, gn, i as int, j as int, 0));
                }
                let mut k: usize = 1;
                while k < n
                    invariant
                        mat_wf(*self),
                        mat_wf(*other),
                        self.n == other.n,
                        n == self.n,
                        gn == n as int,
                        i < n,
                        j < n,
                        1 <= k <= n,
                        rat_wf(acc),
                        pair_eqv(
                            ratp(acc),
                            dotv(self.e@, other.e@, gn, i as int, j as int, (k - 1) as nat),
                        ),
                    decreases n - k,
                {
                    let ak = vget(&self.e, n, i, k);
                    let bk = vget(&other.e, n, k, j);
                    let term = match ak.try_mul(&bk) {
                        Some(v) => v,
                        None => { return None; },
                    };
                    let raw = match acc.try_add(&term) {
                        Some(v) => v,
                        None => { return None; },
                    };
                    let newacc = raw.reduced();
                    proof {
                        lemma_rc_index(gn, i as int, k as int);
                        lemma_rc_index(gn, k as int, j as int);
                        let prev = dotv(self.e@, other.e@, gn, i as int, j as int, (k - 1) as nat);
                        let texact = pmul(
                            entv(self.e@, gn, i as int, k as int),
                            entv(other.e@, gn, k as int, j as int),
                        );
                        lemma_dotv_den_pos(
                            self.e@,
                            other.e@,
                            gn,
                            i as int,
                            j as int,
                            (k - 1) as nat,
                        );
                        assert(ratp(term) == texact);
                        lemma_padd_eqv(ratp(acc), prev, ratp(term), texact);
                        assert(ratp(raw) == padd(ratp(acc), ratp(term)));
                        assert(dotv(self.e@, other.e@, gn, i as int, j as int, k as nat) == padd(
                            prev,
                            texact,
                        ));
                        lemma_pair_eqv_trans(
                            ratp(newacc),
                            ratp(raw),
                            dotv(self.e@, other.e@, gn, i as int, j as int, k as nat),
                        );
                    }
                    acc = newacc;
                    k += 1;
                }
                e.push(acc);
                j += 1;
                proof {
                    assert(e.len() == i * n + j) by (nonlinear_arith)
                        requires
                            e.len() == i * n + (j - 1) + 1,
                    ;
                    assert forall|i2: int, j2: int| 0 <= i2 < i && 0 <= j2 < n implies pair_eqv(
                        ratp(#[trigger] e@[i2 * gn + j2]),
                        mul_entry(self.e@, other.e@, gn, i2, j2),
                    ) by {
                        assert(0 <= i2 * gn + j2 < e.len() - 1) by (nonlinear_arith)
                            requires
                                0 <= i2 < i,
                                0 <= j2 < n,
                                gn == n as int,
                                e.len() == i * n + j,
                                j >= 1,
                        ;
                    }
                    assert forall|j2: int| 0 <= j2 < j implies pair_eqv(
                        ratp(#[trigger] e@[i as int * gn + j2]),
                        mul_entry(self.e@, other.e@, gn, i as int, j2),
                    ) by {
                        assert(0 <= i as int * gn + j2 < e.len()) by (nonlinear_arith)
                            requires
                                0 <= j2 < j,
                                j <= n,
                                gn == n as int,
                                e.len() == i * n + j,
                        ;
                        if j2 == j - 1 {
                            assert(i as int * gn + j2 == e.len() - 1) by (nonlinear_arith)
                                requires
                                    e.len() == i * n + j,
                                    gn == n as int,
                                    j2 == j - 1,
                            ;
                        }
                    }
                }
            }
            i += 1;
            proof {
                assert(e.len() == i * n) by (nonlinear_arith)
                    requires
                        e.len() == (i - 1) * n + n,
                ;
            }
        }
        proof {
            assert forall|i2: int, j2: int| 0 <= i2 < n && 0 <= j2 < n implies pair_eqv(
                entv(e@, gn, i2, j2),
                mul_entry(self.e@, other.e@, gn, i2, j2),
            ) by {
                lemma_rc_index(gn, i2, j2);
            }
        }
        Some(Mat { n, e })
    }

    /// An element-for-element copy.
    pub fn duplicate(&self) -> (r: Mat)
        ensures
            r.n == self.n,
            r.e@ == self.e@,
    {
        let mut e: Vec<Rat> = Vec::new();
        let mut t: usize = 0;
        while t < self.e.len()
            invariant
                t <= self.e.len(),
                e.len() == t,
                forall|k: int| 0 <= k < t ==> #[trigger] e@[k] == self.e@[k],
            decreases self.e.len() - t,
        {
            e.push(self.e[t]);
            t += 1;
        }
        proof {
            assert(e@ =~= self.e@);
        }
        Mat { n: self.n, e }
    }

    /// Whether the entries of this matrix hold the mathematical identity.
    pub fn entries_identity(&self) -> (r: bool)
        requires
            mat_wf(*self),
        ensures
            r == holds_identity(self.e@, self.n as int),
    {
        let n = self.n;
        let mut i: usize = 0;
        while i < n
            invariant
                mat_wf(*self),
                n == self.n,
                i <= n,
                forall|i2: int, j2: int|
                    0 <= i2 < i && 0 <= j2 < n ==> {
                        if i2 == j2 {
                            (#[trigger] entv(self.e@, n as int, i2, j2)).0 == entv(
                                self.e@,
                                n as int,
                                i2,
                                j2,
                            ).1
                        } else {
                            entv(self.e@, n as int, i2, j2).0 == 0
                        }
                    },
            decreases n - i,
        {
            let mut j: usize = 0;
            while j < n
                invariant
                    mat_wf(*self),
                    n == self.n,
                    i < n,
                    j <= n,
                    forall|i2: int, j2: int|
                        0 <= i2 < i && 0 <= j2 < n ==> {
                            if i2 == j2 {
                                (#[trigger] entv(self.e@, n as int, i2, j2)).0 == entv(
                                    self.e@,
                                    n as int,
                                    i2,
                                    j2,
                                ).1
                            } else {
                                entv(self.e@, n as int, i2, j2).0 == 0
                            }
                        },
                    forall|j2: int|
                        0 <= j2 < j ==> {
                            if i as int == j2 {
                                (#[trigger] entv(self.e@, n as int, i as int, j2)).0 == entv(
                                    self.e@,
                                    n as int,
                                    i as int,
                                    j2,
                                ).1
                            } else {
                                entv(self.e@, n as int, i as int, j2).0 == 0
                            }
                        },
                decreases n - j,
            {
                let v = vget(&self.e, n, i, j);
                proof {
                    lemma_rc_index(n as int, i as int, j as int);
                    assert(entv(self.e@, n as int, i as int, j as int) == ratp(v));
                }
                if i == j {
                    if !(v.num == v.den) {
                        return false;
                    }
                } else {
                    if !(v.num == 0) {
                        return false;
                    }
                }
                j += 1;
            }
            i += 1;
        }
        true
    }

    /// A candidate inverse by Gauss-Jordan elimination over exact rationals.
    /// Nothing mathematical is claimed of the result; `try_invert` certifies
    /// it by multiplying back.
    fn gauss_candidate(&self) -> (r: Result<Mat, TokenizationError>)
        requires
            mat_wf(*self),
        ensures
            r matches Ok(m) ==> mat_wf(m) && m.n == self.n,
            r matches Err(e) ==> e.kind == ErrorKind::Semantic || e.kind == ErrorKind::NumericRange,
    {
        let n = self.n;
        let mut a = self.duplicate().e;
        let mut inv = Mat::identity(n).e;
        let mut col: usize = 0;
        while col < n
            invariant
                n == self.n,
                n == 3 || n == 4,
                col <= n,
                a.len() == n * n,
                inv.len() == n * n,
                seq_rats_wf(a@),
                seq_rats_wf(inv@),
            decreases n - col,
        {
            let mut piv: usize = col;
            let mut found = false;
            let mut row: usize = col;
            while row < n && !found
                invariant
                    n == 3 || n == 4,
                    col < n,
                    col <= row <= n,
                    col <= piv < n,
                    a.len() == n * n,
                    seq_rats_wf(a@),
                decreases n - row, (if found { 0int } else { 1int }),
            {
                if !vget(&a, n, row, col).is_zero() {
                    piv = row;
                    found = true;
                } else {
                    row += 1;
                }
            }
            if !found {
                return Err(TokenizationError::of_kind(
                    ErrorKind::Semantic,
                    "degenerate transform: no usable pivot",
                ));
            }
            if piv != col {
                let mut c2: usize = 0;
                while c2 < n
                    invariant
                        n == 3 || n == 4,
                        col < n,
                        piv < n,
                        c2 <= n,
                        a.len() == n * n,
                        inv.len() == n * n,
                        seq_rats_wf(a@),
                        seq_rats_wf(inv@),
                    decreases n - c2,
                {
                    let x = vget(&a, n, piv, c2);
                    let y = vget(&a, n, col, c2);
                    vput(&mut a, n, piv, c2, y);
                    vput(&mut a, n, col, c2, x);
                    let x2 = vget(&inv, n, piv, c2);
                    let y2 = vget(&inv, n, col, c2);
                    vput(&mut inv, n, piv, c2, y2);
                    vput(&mut inv, n, col, c2, x2);
                    c2 += 1;
                }
            }
            let pivot = vget(&a, n, col, col);
            if pivot.is_zero() {
                return Err(TokenizationError::of_kind(
                    ErrorKind::Semantic,
                    "degenerate transform: zero pivot",
                ));
            }
            let pinv = match pivot.try_recip() {
                Some(v) => v,
                None => {
                    return Err(TokenizationError::of_kind(
                        ErrorKind::NumericRange,
                        "transform inversion: value out of range",
                    ));
                },
            };
            let mut c2: usize = 0;
            while c2 < n
                invariant
                    n == 3 || n == 4,
                    col < n,
                    c2 <= n,
                    a.len() == n * n,
                    inv.len() == n * n,
                    seq_rats_wf(a@),
                    seq_rats_wf(inv@),
                    rat_wf(pinv),
                decreases n - c2,
            {
                let va = match vget(&a, n, col, c2).try_mul(&pinv) {
                    Some(v) => v.reduced(),
                    None => {
                        return Err(TokenizationError::of_kind(
                            ErrorKind::NumericRange,
                            "transform inversion: value out of range",
                        ));
                    },
                };
                vput(&mut a, n, col, c2, va);
                let vi = match vget(&inv, n, col, c2).try_mul(&pinv) {
                    Some(v) => v.reduced(),
                    None => {
                        return Err(TokenizationError::of_kind(
                            ErrorKind::NumericRange,
                            "transform inversion: value out of range",
                        ));
                    },
                };
                vput(&mut inv, n, col, c2, vi);
                c2 += 1;
            }
            let mut row2: usize = 0;
            while row2 < n
                invariant
                    n == 3 || n == 4,
                    col < n,
                    row2 <= n,
                    a.len() == n * n,
                    inv.len() == n * n,
                    seq_rats_wf(a@),
                    seq_rats_wf(inv@),
                decreases n - row2,
            {
                if row2 != col {
                    let f = vget(&a, n, row2, col);
                    if !f.is_zero() {
                        let mut c3: usize = 0;
                        while c3 < n
                            invariant
                                n == 3 || n == 4,
                                col < n,
                                row2 < n,
                                c3 <= n,
                                a.len() == n * n,
                                inv.len() == n * n,
                                seq_rats_wf(a@),
                                seq_rats_wf(inv@),
                                rat_wf(f),
                            decreases n - c3,
                        {
                            let t1 = match vget(&a, n, col, c3).try_mul(&f) {
                                Some(v) => v,
                                None => {
                                    return Err(TokenizationError::of_kind(
                                        ErrorKind::NumericRange,
                                        "transform inversion: value out of range",
                                    ));
                                },
                            };
                            let t1n = match t1.try_neg() {
                                Some(v) => v,
                                None => {
                                    return Err(TokenizationError::of_kind(
                                        ErrorKind::NumericRange,
                                        "transform inversion: value out of range",
                                    ));
                                },
                            };
                            let na = match vget(&a, n, row2, c3).try_add(&t1n) {
                                Some(v) => v.reduced(),
                                None => {
                                    return Err(TokenizationError::of_kind(
                                        ErrorKind::NumericRange,
                                        "transform inversion: value out of range",
                                    ));
                                },
                            };
                            vput(&mut a, n, row2, c3, na);
                            let t2 = match vget(&inv, n, col, c3).try_mul(&f) {
                                Some(v) => v,
                                None => {
                                    return Err(TokenizationError::of_kind(
                                        ErrorKind::NumericRange,
                                        "transform inversion: value out of range",
                                    ));
                                },
                            };
                            let t2n = match t2.try_neg() {
                                Some(v) => v,
                                None => {
                                    return Err(TokenizationError::of_kind(
                                        ErrorKind::NumericRange,
                                        "transform inversion: value out of range",
                                    ));
                                },
                            };
                            let ni = match vget(&inv, n, row2, c3).try_add(&t2n) {
                                Some(v) => v.reduced(),
                                None => {
                                    return Err(TokenizationError::of_kind(
                                        ErrorKind::NumericRange,
                                        "transform inversion: value out of range",
                                    ));
                                },
                            };
                            vput(&mut inv, n, row2, c3, ni);
                            c3 += 1;
                        }
                    }
                }
                row2 += 1;
            }
            col += 1;
        }
        Ok(Mat { n, e: inv })
    }

    /// A certified two-sided inverse: an `Ok` result multiplied by this
    /// matrix, in either order, is mathematically the identity. Fails with a
    /// semantic error when no inverse could be certified (in particular for
    /// a singular matrix), and with a range error when the exact arithmetic
    /// left `i128`.
    pub fn try_invert(&self) -> (r: Result<Mat, TokenizationError>)
        requires
            mat_wf(*self),
        ensures
            r matches Ok(inv) ==> mat_wf(inv) && inv.n == self.n && prod_is_identity(
                self.e@,
                inv.e@,
                self.n as int,
            ) && prod_is_identity(inv.e@, self.e@, self.n as int),
            r matches Err(e) ==> e.kind == ErrorKind::Semantic || e.kind == ErrorKind::NumericRange,
    {
        let cand = match self.gauss_candidate() {
            Ok(m) => m,
            Err(e) => { return Err(e); },
        };
        let p1 = match self.try_mul_mat(&cand) {
            Some(p) => p,
            None => {
                return Err(TokenizationError::of_kind(
                    ErrorKind::NumericRange,
                    "transform inversion: value out of range",
                ));
            },
        };
        if !p1.entries_identity() {
            return Err(TokenizationError::of_kind(
                ErrorKind::Semantic,
                "degenerate transform: inverse check failed",
            ));
        }
        let p2 = match cand.try_mul_mat(self) {
            Some(p) => p,
            None => {
                return Err(TokenizationError::of_kind(
                    ErrorKind::NumericRange,
                    "transform inversion: value out of range",
                ));
            },
        };
        if !p2.entries_identity() {
            return Err(TokenizationError::of_kind(
                ErrorKind::Semantic,
                "degenerate transform: inverse check failed",
            ));
        }
        proof {
            let gn = self.n as int;
            lemma_identity_transfer(&p1, self.e@, cand.e@, gn);
            lemma_identity_transfer(&p2, cand.e@, self.e@, gn);
        }
        Ok(cand)
    }
}

/// The upper-left 3x3 block of a 4x4 matrix, as in the computation of a
/// normal-transform matrix.
pub fn mat3_from_mat4(m: &Mat) -> (r: Mat)
    requires
        mat_wf(*m),
        m.n == 4,
    ensures
        mat_wf(r),
        r.n == 3,
        r.e@ == upper3_seq(m.e@),
        forall|i: int, j: int|
            0 <= i < 3 && 0 <= j < 3 ==> entv(r.e@, 3, i, j) == entv(m.e@, 4, i, j),
{
    let mut e: Vec<Rat> = Vec::new();
    let mut i: usize = 0;
    while i < 3
        invariant
            mat_wf(*m),
            m.n == 4,
            i <= 3,
            e.len() == i * 3,
            forall|i2: int, j2: int|
                0 <= i2 < i && 0 <= j2 < 3 ==> #[trigger] e@[i2 * 3 + j2] == m.e@[i2 * 4 + j2],
        decreases 3 - i,
    {
        let mut j: usize = 0;
        while j < 3
            invariant
                mat_wf(*m),
                m.n == 4,
                i < 3,
                j <= 3,
                e.len() == i * 3 + j,
                forall|i2: int, j2: int|
                    0 <= i2 < i && 0 <= j2 < 3 ==> #[trigger] e@[i2 * 3 + j2] == m.e@[i2 * 4 + j2],
                forall|j2: int|
                    0 <= j2 < j ==> #[trigger] e@[i as int * 3 + j2] == m.e@[i as int * 4 + j2],
            decreases 3 - j,
        {
            let v = vget(&m.e, 4, i, j);
            e.push(v);
            j += 1;
        }
        i += 1;
    }
    proof {
        assert forall|k: int| 0 <= k < 9 implies e@[k] == m.e@[(k / 3) * 4 + (k % 3)] by {
            let i2 = k / 3;
            let j2 = k % 3;
            vstd::arithmetic::div_mod::lemma_fundamental_div_mod(k, 3);
            vstd::arithmetic::div_mod::lemma_mod_bound(k, 3);
            assert(e@[i2 * 3 + j2] == m.e@[i2 * 4 + j2]);
        }
        assert(e@ =~= upper3_seq(m.e@));
        assert forall|i2: int, j2: int| 0 <= i2 < 3 && 0 <= j2 < 3 implies entv(e@, 3, i2, j2)
            == entv(m.e@, 4, i2, j2) by {
            lemma_rc_index(3, i2, j2);
            lemma_rc_index(4, i2, j2);
        }
        assert(seq_rats_wf(e@));
    }
    Mat { n: 3, e }
}

} // verus!
