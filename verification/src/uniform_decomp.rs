//! Decompositions of uniform-unit matrices.
//!
//! A uniform matrix of unit `U` carries a canonical metric (its single unit),
//! so the Euclidean decompositions are well posed: the orthogonal factors are
//! dimensionless and the unit `U` rides on the triangular, diagonal or
//! quasi-triangular factor. A Cholesky factor is the exception: `L Lᴴ`
//! multiplies entry units, so `L` carries `√U`, which exists only when every
//! exponent of `U` is even.

use vstd::prelude::*;
use crate::linalg::ITERATION_LIMIT;
use crate::backend::{na_ad_mul, na_adjoint, na_eigenvalues, na_mul, na_solve_upper, na_try_inverse, shaped};
use crate::backend_decomp::{
    min_dim, na_bidiagonalize, na_cholesky_inverse, na_cholesky_l, na_cholesky_solve, na_col_piv_qr,
    na_hessenberg, na_pseudo_inverse, na_qr, na_schur, na_svd, na_symmetric_eigen,
    na_symmetric_tridiagonalize, na_udu,
};
use crate::decomp::{diag_of, lemma_square_fits, similarity, tridiagonal};
use crate::generalized::lemma_mul_mono;
use crate::raw::RawMatrix;
use crate::uniform::{with_unit, UniformUnitMatrix};
use crate::uniform_ops::square_of;
use crate::unit::{exps_within, spec_div, spec_even, spec_inv, spec_mul, spec_one, spec_sqrt, Unit};

verus! {

/// Half of an operable unit with even exponents is operable.
pub proof fn lemma_sqrt_operable(e: Seq<int>)
    requires
        exps_within(e, 200),
        spec_even(e),
    ensures
        exps_within(spec_sqrt(e), 200),
{
    assert forall|k: int| 0 <= k < 12 implies -200 <= #[trigger] spec_sqrt(e)[k] <= 200 by {
        assert(-200 <= e[k] <= 200);
    }
}

/// The Cholesky factorization `M = L Lᴴ` of a positive-definite uniform
/// matrix of unit `U` (every exponent even): `l` carries `√U`. Solves and
/// the inverse reuse the factor, with no new factorization.
pub struct UniformCholesky<T> {
    pub l: UniformUnitMatrix<T>,
    pub unit: Unit,
}

impl<T> UniformCholesky<T> {
    /// `l` is square, of unit `√U`, for the factored unit `U`.
    pub open spec fn wf(&self) -> bool {
        &&& square_of(self.l, self.l.inner.nrows as int)
        &&& spec_even(self.unit.exps())
        &&& self.l.unit.exps() == spec_sqrt(self.unit.exps())
    }
}

impl<T: nalgebra::ComplexField + Copy> UniformCholesky<T> {
    /// Solves `M x = b`; the solution has the unit `b.unit / U`.
    pub fn solve(&self, b: &UniformUnitMatrix<T>) -> (r: UniformUnitMatrix<T>)
        requires
            self.wf(),
            b.wf(),
            b.inner.nrows == self.l.inner.nrows,
            b.unit.operable(),
            self.unit.operable(),
        ensures
            r.wf(),
            r.inner.nrows == b.inner.nrows,
            r.inner.ncols == b.inner.ncols,
            r.unit.exps() == spec_div(b.unit.exps(), self.unit.exps()),
    {
        UniformUnitMatrix { inner: na_cholesky_solve(&self.l.inner, &b.inner), unit: b.unit.div(&self.unit) }
    }

    /// The inverse `M⁻¹`, of unit `1 / U`.
    pub fn inverse(&self) -> (r: UniformUnitMatrix<T>)
        requires
            self.wf(),
            self.unit.operable(),
        ensures
            square_of(r, self.l.inner.nrows as int),
            r.unit.exps() == spec_inv(self.unit.exps()),
    {
        UniformUnitMatrix { inner: na_cholesky_inverse(&self.l.inner), unit: self.unit.inv() }
    }
}

/// The QR factorization `M = Q R` of a uniform matrix of unit `U`: the
/// dimensionless `q` (`m × min`) and `r` of unit `U` (`min × n`).
pub struct UniformQR<T> {
    pub q: UniformUnitMatrix<T>,
    pub r: UniformUnitMatrix<T>,
}

impl<T> UniformQR<T> {
    /// `q` is dimensionless and its columns match `r`'s rows.
    pub open spec fn wf(&self) -> bool {
        &&& self.q.wf()
        &&& self.r.wf()
        &&& self.q.inner.ncols == self.r.inner.nrows
        &&& self.q.unit.exps() == spec_one()
    }
}

impl<T: nalgebra::ComplexField + Copy> UniformQR<T> {
    /// Multiplies the factors back together, `Q R`, of `r`'s unit.
    pub fn recompose(&self) -> (r: UniformUnitMatrix<T>)
        requires
            self.wf(),
        ensures
            r.wf(),
            r.inner.nrows == self.q.inner.nrows,
            r.inner.ncols == self.r.inner.ncols,
            r.unit == self.r.unit,
    {
        UniformUnitMatrix { inner: na_mul(&self.q.inner, &self.r.inner), unit: self.r.unit }
    }

    /// Solves `M x = b` in the least-squares sense for a tall or square `M`
    /// (`R` then square): `R x = Qᴴ b`, of unit `b.unit / U` (`None` when
    /// `R` is singular).
    pub fn solve(&self, b: &UniformUnitMatrix<T>) -> (r: Option<UniformUnitMatrix<T>>)
        requires
            self.wf(),
            b.wf(),
            b.inner.nrows == self.q.inner.nrows,
            self.r.inner.nrows == self.r.inner.ncols,
            b.unit.operable(),
            self.r.unit.operable(),
        ensures
            r matches Some(x) ==> x.wf() && x.inner.nrows == self.r.inner.ncols && x.inner.ncols == b.inner.ncols
                && x.unit.exps() == spec_div(b.unit.exps(), self.r.unit.exps()),
    {
        let qt_b = na_ad_mul(&self.q.inner, &b.inner);
        with_unit(na_solve_upper(&self.r.inner, &qt_b), b.unit.div(&self.r.unit))
    }

    /// The inverse `R⁻¹ Qᴴ` of a square `M`, of unit `1 / U` (`None` when
    /// `R` is singular).
    pub fn try_inverse(&self) -> (r: Option<UniformUnitMatrix<T>>)
        requires
            self.wf(),
            self.r.inner.nrows == self.r.inner.ncols,
            self.r.unit.operable(),
        ensures
            r matches Some(x) ==> x.wf() && x.inner.nrows == self.r.inner.ncols && x.inner.ncols == self.q.inner.nrows
                && x.unit.exps() == spec_inv(self.r.unit.exps()),
    {
        let qh = na_adjoint(&self.q.inner);
        with_unit(na_solve_upper(&self.r.inner, &qh), self.r.unit.inv())
    }
}

/// The column-pivoted QR factorization `M = Q R Pᵀ` of a square uniform
/// matrix of unit `U`: dimensionless `q` and `p`, and `r` of unit `U`.
pub struct UniformColPivQR<T> {
    pub q: UniformUnitMatrix<T>,
    pub r: UniformUnitMatrix<T>,
    pub p: UniformUnitMatrix<T>,
}

impl<T> UniformColPivQR<T> {
    /// All three factors are `n × n`; `q` and `p` are dimensionless.
    pub open spec fn wf(&self) -> bool {
        &&& square_of(self.q, self.r.inner.nrows as int)
        &&& square_of(self.r, self.r.inner.nrows as int)
        &&& square_of(self.p, self.r.inner.nrows as int)
        &&& self.q.unit.exps() == spec_one()
        &&& self.p.unit.exps() == spec_one()
    }
}

impl<T: nalgebra::ComplexField + Copy> UniformColPivQR<T> {
    /// Multiplies the factors back together, `Q R Pᵀ`, of `r`'s unit.
    pub fn recompose(&self) -> (r: UniformUnitMatrix<T>)
        requires
            self.wf(),
        ensures
            square_of(r, self.r.inner.nrows as int),
            r.unit == self.r.unit,
    {
        let pt = self.p.inner.transpose();
        UniformUnitMatrix { inner: na_mul(&na_mul(&self.q.inner, &self.r.inner), &pt), unit: self.r.unit }
    }

    /// Solves `M x = b` through the factors, `x = P R⁻¹ Qᴴ b`, of unit
    /// `b.unit / U` (`None` when `R` is singular).
    pub fn solve(&self, b: &UniformUnitMatrix<T>) -> (r: Option<UniformUnitMatrix<T>>)
        requires
            self.wf(),
            b.wf(),
            b.inner.nrows == self.r.inner.nrows,
            b.unit.operable(),
            self.r.unit.operable(),
        ensures
            r matches Some(x) ==> x.wf() && x.inner.nrows == b.inner.nrows && x.inner.ncols == b.inner.ncols
                && x.unit.exps() == spec_div(b.unit.exps(), self.r.unit.exps()),
    {
        let qt_b = na_ad_mul(&self.q.inner, &b.inner);
        match na_solve_upper(&self.r.inner, &qt_b) {
            Some(rz) => Some(UniformUnitMatrix { inner: na_mul(&self.p.inner, &rz), unit: b.unit.div(&self.r.unit) }),
            None => None,
        }
    }
}

/// The singular value decomposition `M = U Σ Vᵀ` of a real uniform matrix of
/// unit `U`: dimensionless `u` (`m × min`) and `v_t` (`min × n`), and the
/// singular values (a `min × 1` column) of unit `U`.
pub struct UniformSVD<T> {
    pub u: UniformUnitMatrix<T>,
    pub singular_values: UniformUnitMatrix<T>,
    pub v_t: UniformUnitMatrix<T>,
}

impl<T> UniformSVD<T> {
    /// The factors share the `k` singular directions, `k` at most `u`'s
    /// row count; `u` and `v_t` are dimensionless.
    pub open spec fn wf(&self) -> bool {
        let k = self.u.inner.ncols as int;
        &&& self.u.wf()
        &&& self.v_t.wf()
        &&& self.singular_values.wf()
        &&& self.singular_values.inner.nrows == k
        &&& self.singular_values.inner.ncols == 1
        &&& self.v_t.inner.nrows == k
        &&& k <= self.u.inner.nrows
        &&& self.u.unit.exps() == spec_one()
        &&& self.v_t.unit.exps() == spec_one()
    }
}

impl<T: nalgebra::RealField + Copy> UniformSVD<T> {
    /// Multiplies the factors back together, `U Σ Vᵀ`, of the singular
    /// values' unit.
    pub fn recompose(&self) -> (r: UniformUnitMatrix<T>)
        requires
            self.wf(),
        ensures
            r.wf(),
            r.inner.nrows == self.u.inner.nrows,
            r.inner.ncols == self.v_t.inner.ncols,
            r.unit == self.singular_values.unit,
    {
        let k = self.u.inner.ncols;
        proof { lemma_mul_mono(k as int, self.u.inner.nrows as int, k as int); }
        let sigma = diag_of(&self.singular_values.inner, k);
        UniformUnitMatrix { inner: na_mul(&na_mul(&self.u.inner, &sigma), &self.v_t.inner), unit: self.singular_values.unit }
    }
}

/// A dimensionless square `q` and a square `x` of the same size: the factors
/// `Q X Qᴴ` of a uniform similarity decomposition, `x` carrying the unit.
pub open spec fn similarity_factors<T>(q: UniformUnitMatrix<T>, x: UniformUnitMatrix<T>) -> bool {
    &&& square_of(q, q.inner.nrows as int)
    &&& square_of(x, q.inner.nrows as int)
    &&& q.unit.exps() == spec_one()
}

/// The Schur form `M = Q T Qᴴ` of a uniform square matrix of unit `U`: the
/// dimensionless unitary `q` and quasi-triangular `t` of unit `U`.
pub struct UniformSchur<T> {
    pub q: UniformUnitMatrix<T>,
    pub t: UniformUnitMatrix<T>,
}

/// The Hessenberg form `M = Q H Qᴴ` of a uniform square matrix of unit `U`:
/// the dimensionless unitary `q` and upper-Hessenberg `h` of unit `U`.
pub struct UniformHessenberg<T> {
    pub q: UniformUnitMatrix<T>,
    pub h: UniformUnitMatrix<T>,
}

/// The tridiagonalization `M = Q T Qᴴ` of a real symmetric uniform matrix of
/// unit `U`: the dimensionless orthogonal `q` and tridiagonal `t` of unit `U`.
pub struct UniformSymmetricTridiagonal<T> {
    pub q: UniformUnitMatrix<T>,
    pub t: UniformUnitMatrix<T>,
}

impl<T> UniformSchur<T> {
    /// The factors of a uniform similarity decomposition.
    pub open spec fn wf(&self) -> bool {
        similarity_factors(self.q, self.t)
    }
}

impl<T> UniformHessenberg<T> {
    /// The factors of a uniform similarity decomposition.
    pub open spec fn wf(&self) -> bool {
        similarity_factors(self.q, self.h)
    }
}

impl<T> UniformSymmetricTridiagonal<T> {
    /// The factors of a uniform similarity decomposition.
    pub open spec fn wf(&self) -> bool {
        similarity_factors(self.q, self.t)
    }
}

/// Multiplies uniform similarity factors back together, `Q X Qᴴ`, of `x`'s
/// unit.
fn uniform_similarity<T: nalgebra::ComplexField + Copy>(q: &UniformUnitMatrix<T>, x: &UniformUnitMatrix<T>) -> (r: UniformUnitMatrix<T>)
    requires
        similarity_factors(*q, *x),
    ensures
        square_of(r, q.inner.nrows as int),
        r.unit == x.unit,
{
    UniformUnitMatrix { inner: similarity(&q.inner, &x.inner), unit: x.unit }
}

impl<T: nalgebra::ComplexField + Copy> UniformSchur<T> {
    /// Multiplies the factors back together, `Q T Qᴴ`, of `t`'s unit.
    pub fn recompose(&self) -> (r: UniformUnitMatrix<T>)
        requires
            self.wf(),
        ensures
            square_of(r, self.q.inner.nrows as int),
            r.unit == self.t.unit,
    {
        uniform_similarity(&self.q, &self.t)
    }
}

impl<T: nalgebra::ComplexField + Copy> UniformHessenberg<T> {
    /// Multiplies the factors back together, `Q H Qᴴ`, of `h`'s unit.
    pub fn recompose(&self) -> (r: UniformUnitMatrix<T>)
        requires
            self.wf(),
        ensures
            square_of(r, self.q.inner.nrows as int),
            r.unit == self.h.unit,
    {
        uniform_similarity(&self.q, &self.h)
    }
}

impl<T: nalgebra::ComplexField + Copy> UniformSymmetricTridiagonal<T> {
    /// Multiplies the factors back together, `Q T Qᴴ`, of `t`'s unit.
    pub fn recompose(&self) -> (r: UniformUnitMatrix<T>)
        requires
            self.wf(),
        ensures
            square_of(r, self.q.inner.nrows as int),
            r.unit == self.t.unit,
    {
        uniform_similarity(&self.q, &self.t)
    }
}

/// The factorization `M = U D Uᵀ` of a real symmetric uniform matrix of unit
/// `U`: the dimensionless `u` and the diagonal `d` (an `n × 1` column) of
/// unit `U`.
pub struct UniformUDU<T> {
    pub u: UniformUnitMatrix<T>,
    pub d: UniformUnitMatrix<T>,
}

impl<T> UniformUDU<T> {
    /// `u` is a dimensionless square and `d` a column of its size.
    pub open spec fn wf(&self) -> bool {
        &&& square_of(self.u, self.u.inner.nrows as int)
        &&& self.d.wf()
        &&& self.d.inner.nrows == self.u.inner.nrows
        &&& self.d.inner.ncols == 1
        &&& self.u.unit.exps() == spec_one()
    }
}

impl<T: nalgebra::RealField + Copy> UniformUDU<T> {
    /// Multiplies the factors back together, `U D Uᵀ`, of `d`'s unit.
    pub fn recompose(&self) -> (r: UniformUnitMatrix<T>)
        requires
            self.wf(),
        ensures
            square_of(r, self.u.inner.nrows as int),
            r.unit == self.d.unit,
    {
        let n = self.u.inner.nrows;
        proof { lemma_square_fits(self.u.inner); }
        let d = diag_of(&self.d.inner, n);
        UniformUnitMatrix { inner: similarity(&self.u.inner, &d), unit: self.d.unit }
    }
}

/// The bidiagonalization `M = U D Vᵀ` of a uniform matrix of unit `U`: the
/// dimensionless `u` (`m × min`) and `v_t` (`min × n`), and the bidiagonal
/// `d` (`min × min`) of unit `U`.
pub struct UniformBidiagonal<T> {
    pub u: UniformUnitMatrix<T>,
    pub d: UniformUnitMatrix<T>,
    pub v_t: UniformUnitMatrix<T>,
}

impl<T> UniformBidiagonal<T> {
    /// The factors share the `min` bidiagonal directions; `u` and `v_t` are
    /// dimensionless.
    pub open spec fn wf(&self) -> bool {
        let k = self.u.inner.ncols as int;
        &&& self.u.wf()
        &&& self.v_t.wf()
        &&& square_of(self.d, k)
        &&& self.v_t.inner.nrows == k
        &&& self.u.unit.exps() == spec_one()
        &&& self.v_t.unit.exps() == spec_one()
    }
}

impl<T: nalgebra::ComplexField + Copy> UniformBidiagonal<T> {
    /// Multiplies the factors back together, `U D Vᵀ`, of `d`'s unit.
    pub fn recompose(&self) -> (r: UniformUnitMatrix<T>)
        requires
            self.wf(),
        ensures
            r.wf(),
            r.inner.nrows == self.u.inner.nrows,
            r.inner.ncols == self.v_t.inner.ncols,
            r.unit == self.d.unit,
    {
        UniformUnitMatrix { inner: na_mul(&na_mul(&self.u.inner, &self.d.inner), &self.v_t.inner), unit: self.d.unit }
    }
}

/// The solution of the pencil `K v = λ M v` of real symmetric uniform
/// matrices `K` (unit `unit_k`) and positive-definite `M` (unit `unit_m`,
/// every exponent even): the eigenvalues carry `unit_k / unit_m` and the
/// eigenvectors `1 / √unit_m`.
pub struct GeneralizedSymmetricEigen<T> {
    pub eigenvalues: UniformUnitMatrix<T>,
    pub eigenvectors: UniformUnitMatrix<T>,
    pub unit_k: Unit,
    pub unit_m: Unit,
}

impl<T> GeneralizedSymmetricEigen<T> {
    /// The eigenvalues are a column of the eigenvectors' size, and both carry
    /// the units the pencil gives them.
    pub open spec fn wf(&self) -> bool {
        let n = self.eigenvectors.inner.nrows as int;
        &&& square_of(self.eigenvectors, n)
        &&& self.eigenvalues.wf()
        &&& self.eigenvalues.inner.nrows == n
        &&& self.eigenvalues.inner.ncols == 1
        &&& spec_even(self.unit_m.exps())
        &&& self.eigenvalues.unit.exps() == spec_div(self.unit_k.exps(), self.unit_m.exps())
        &&& self.eigenvectors.unit.exps() == spec_inv(spec_sqrt(self.unit_m.exps()))
    }
}

/// `Um · (1/√Um) · (Uk/Um) · (1/√Um) · Um = Uk`: the entry unit of
/// `M V Λ Vᴴ M`.
pub proof fn lemma_pencil_unit(uk: Seq<int>, um: Seq<int>)
    requires
        uk.len() == 12,
        spec_even(um),
    ensures
        spec_mul(spec_mul(spec_mul(spec_mul(um, spec_inv(spec_sqrt(um))), spec_div(uk, um)), spec_inv(spec_sqrt(um))), um) == uk,
{
    let s = spec_sqrt(um);
    assert forall|k: int| 0 <= k < 12 implies s[k] + s[k] == #[trigger] um[k] by {
        assert(um[k] % 2 == 0);
    }
    assert(spec_mul(spec_mul(spec_mul(spec_mul(um, spec_inv(s)), spec_div(uk, um)), spec_inv(s)), um) =~= uk);
}

impl<T: nalgebra::RealField + Copy> GeneralizedSymmetricEigen<T> {
    /// Rebuilds `K = M V Λ Vᴴ M` from the mass matrix `m`; the product of the
    /// factors' units is `K`'s unit.
    pub fn recompose(&self, m: &UniformUnitMatrix<T>) -> (r: UniformUnitMatrix<T>)
        requires
            self.wf(),
            square_of(*m, self.eigenvectors.inner.nrows as int),
            m.unit == self.unit_m,
            self.unit_k.exps().len() == 12,
        ensures
            square_of(r, self.eigenvectors.inner.nrows as int),
            r.unit == self.unit_k,
            spec_mul(spec_mul(spec_mul(spec_mul(m.unit.exps(), self.eigenvectors.unit.exps()),
                self.eigenvalues.unit.exps()), self.eigenvectors.unit.exps()), m.unit.exps()) == r.unit.exps(),
    {
        let n = self.eigenvectors.inner.nrows;
        proof {
            lemma_square_fits(self.eigenvectors.inner);
            lemma_pencil_unit(self.unit_k.exps(), self.unit_m.exps());
        }
        let lambda = diag_of(&self.eigenvalues.inner, n);
        let v = &self.eigenvectors.inner;
        let k = na_mul(&na_mul(&na_mul(&na_mul(&m.inner, v), &lambda), &na_adjoint(v)), &m.inner);
        UniformUnitMatrix { inner: k, unit: self.unit_k }
    }
}

impl<T: nalgebra::ComplexField + Copy> UniformUnitMatrix<T> {
    /// The Cholesky factor of a positive-definite uniform matrix whose unit
    /// has a square root (`None` when the matrix is not positive-definite):
    /// `L` carries `√U`, so that `L Lᴴ` carries `U`.
    pub fn cholesky(self) -> (r: Option<UniformCholesky<T>>)
        requires
            self.wf(),
            self.inner.nrows == self.inner.ncols,
            spec_even(self.unit.exps()),
        ensures
            r matches Some(c) ==> c.wf() && c.unit == self.unit && c.l.inner.nrows == self.inner.nrows
                && spec_mul(c.l.unit.exps(), c.l.unit.exps()) == self.unit.exps(),
    {
        let root = match self.unit.sqrt() {
            Some(u) => u,
            None => {
                assert(false);
                return None;
            },
        };
        match na_cholesky_l(&self.inner) {
            Some(l) => Some(UniformCholesky { l: UniformUnitMatrix { inner: l, unit: root }, unit: self.unit }),
            None => None,
        }
    }

    /// The QR factorization `M = Q R`: `Q` dimensionless (`m × min`), `R` of
    /// this unit (`min × n`).
    pub fn qr(&self) -> (r: UniformQR<T>)
        requires
            self.wf(),
        ensures
            r.wf(),
            r.q.inner.nrows == self.inner.nrows,
            r.r.inner.ncols == self.inner.ncols,
            r.q.inner.ncols == min_dim(self.inner.nrows as int, self.inner.ncols as int),
            r.r.unit == self.unit,
    {
        let (q, r) = na_qr(&self.inner);
        UniformQR { q: UniformUnitMatrix { inner: q, unit: Unit::dimensionless() }, r: UniformUnitMatrix { inner: r, unit: self.unit } }
    }

    /// The column-pivoted QR factorization `M = Q R Pᵀ` of a square matrix.
    pub fn col_piv_qr(&self) -> (r: UniformColPivQR<T>)
        requires
            self.wf(),
            self.inner.nrows == self.inner.ncols,
        ensures
            r.wf(),
            r.r.inner.nrows == self.inner.nrows,
            r.r.unit == self.unit,
    {
        let (q, r, p) = na_col_piv_qr(&self.inner);
        UniformColPivQR {
            q: UniformUnitMatrix { inner: q, unit: Unit::dimensionless() },
            r: UniformUnitMatrix { inner: r, unit: self.unit },
            p: UniformUnitMatrix { inner: p, unit: Unit::dimensionless() },
        }
    }

    /// The Hessenberg form `M = Q H Qᴴ` of a non-empty square matrix: `Q`
    /// dimensionless, `H` of this unit.
    pub fn hessenberg(&self) -> (r: UniformHessenberg<T>)
        requires
            self.wf(),
            self.inner.nrows == self.inner.ncols,
            self.inner.nrows > 0,
        ensures
            r.wf(),
            r.q.inner.nrows == self.inner.nrows,
            r.h.unit == self.unit,
    {
        let (q, h) = na_hessenberg(&self.inner);
        UniformHessenberg { q: UniformUnitMatrix { inner: q, unit: Unit::dimensionless() }, h: UniformUnitMatrix { inner: h, unit: self.unit } }
    }

    /// The bidiagonalization `M = U D Vᵀ` of a matrix with no empty axis:
    /// `U`, `Vᵀ` dimensionless, `D` of this unit.
    pub fn bidiagonalize(&self) -> (r: UniformBidiagonal<T>)
        requires
            self.wf(),
            self.inner.nrows > 0,
            self.inner.ncols > 0,
        ensures
            r.wf(),
            r.u.inner.nrows == self.inner.nrows,
            r.v_t.inner.ncols == self.inner.ncols,
            r.d.unit == self.unit,
    {
        let (u, d, v) = na_bidiagonalize(&self.inner);
        UniformBidiagonal {
            u: UniformUnitMatrix { inner: u, unit: Unit::dimensionless() },
            d: UniformUnitMatrix { inner: d, unit: self.unit },
            v_t: UniformUnitMatrix { inner: v, unit: Unit::dimensionless() },
        }
    }

}

impl<T: nalgebra::RealField + Copy> UniformUnitMatrix<T> {
    /// The singular value decomposition `M = U Σ Vᵀ` of a matrix with no
    /// empty axis: `U`, `Vᵀ` dimensionless, the singular values of this unit,
    /// in the order the backend's iteration leaves them (`None` when that
    /// iteration does not converge within [`ITERATION_LIMIT`] sweeps).
    pub fn svd(&self) -> (r: Option<UniformSVD<T>>)
        requires
            self.wf(),
            self.inner.nrows > 0,
            self.inner.ncols > 0,
        ensures
            r matches Some(f) ==> f.wf() && f.u.inner.nrows == self.inner.nrows
                && f.v_t.inner.ncols == self.inner.ncols && f.singular_values.unit == self.unit,
    {
        match na_svd(&self.inner, ITERATION_LIMIT) {
            Some((u, s, v)) => Some(UniformSVD {
                u: UniformUnitMatrix { inner: u, unit: Unit::dimensionless() },
                singular_values: UniformUnitMatrix { inner: s, unit: self.unit },
                v_t: UniformUnitMatrix { inner: v, unit: Unit::dimensionless() },
            }),
            None => None,
        }
    }

    /// The tridiagonalization `M = Q T Qᵀ` of a non-empty real symmetric
    /// matrix: `Q` dimensionless, `T` (built from nalgebra's diagonal and
    /// off-diagonal) of this unit.
    pub fn symmetric_tridiagonalize(&self) -> (r: UniformSymmetricTridiagonal<T>)
        requires
            self.wf(),
            self.inner.nrows == self.inner.ncols,
            self.inner.nrows > 0,
        ensures
            r.wf(),
            r.q.inner.nrows == self.inner.nrows,
            r.t.unit == self.unit,
    {
        let (q, d, o) = na_symmetric_tridiagonalize(&self.inner);
        proof { lemma_square_fits(self.inner); }
        let t = tridiagonal(d, &o);
        UniformSymmetricTridiagonal {
            q: UniformUnitMatrix { inner: q, unit: Unit::dimensionless() },
            t: UniformUnitMatrix { inner: t, unit: self.unit },
        }
    }

    /// The factorization `M = U D Uᵀ` of a non-empty real symmetric matrix
    /// (`None` on a zero pivot): `U` dimensionless, `D` of this unit.
    pub fn udu(self) -> (r: Option<UniformUDU<T>>)
        requires
            self.wf(),
            self.inner.nrows == self.inner.ncols,
            self.inner.nrows > 0,
        ensures
            r matches Some(f) ==> f.wf() && f.u.inner.nrows == self.inner.nrows && f.d.unit == self.unit,
    {
        match na_udu(&self.inner) {
            Some((u, d)) => Some(UniformUDU {
                u: UniformUnitMatrix { inner: u, unit: Unit::dimensionless() },
                d: UniformUnitMatrix { inner: d, unit: self.unit },
            }),
            None => None,
        }
    }

    /// The Moore-Penrose pseudo-inverse of a matrix with no empty axis, of
    /// unit `1 / U`; singular values below `eps` count as zero (nalgebra's
    /// error when `eps` is negative, or an error when the decomposition does
    /// not converge within [`ITERATION_LIMIT`] sweeps).
    pub fn pseudo_inverse(self, eps: T) -> (r: Result<UniformUnitMatrix<T>, &'static str>)
        requires
            self.wf(),
            self.inner.nrows > 0,
            self.inner.ncols > 0,
            self.unit.operable(),
        ensures
            r matches Ok(x) ==> x.wf() && x.inner.nrows == self.inner.ncols && x.inner.ncols == self.inner.nrows
                && x.unit.exps() == spec_inv(self.unit.exps()),
            r matches Err(e) ==> e@ == "SVD pseudo inverse: the epsilon must be non-negative."@
                || e@ == "singular value decomposition did not converge"@,
    {
        match na_pseudo_inverse(&self.inner, eps, ITERATION_LIMIT) {
            Some(Ok(p)) => Ok(UniformUnitMatrix { inner: p, unit: self.unit.inv() }),
            Some(Err(e)) => Err(e),
            None => Err("singular value decomposition did not converge"),
        }
    }

    /// The solution of the pencil `K v = λ M v` for this symmetric `K` and the
    /// positive-definite `m` of the same non-empty size whose unit has a
    /// square root: with `M = L Lᴴ` it reduces to `C = L⁻¹ K L⁻ᴴ` and maps the
    /// eigenvectors back by `L⁻ᴴ`. `None` when `m` has no Cholesky factor or
    /// the factor is singular.
    pub fn generalized_symmetric_eigen(self, m: &UniformUnitMatrix<T>) -> (r: Option<GeneralizedSymmetricEigen<T>>)
        requires
            self.wf(),
            m.wf(),
            self.inner.nrows == self.inner.ncols,
            self.inner.nrows > 0,
            m.inner.nrows == self.inner.nrows,
            m.inner.ncols == self.inner.nrows,
            self.unit.operable(),
            m.unit.operable(),
            spec_even(m.unit.exps()),
        ensures
            r matches Some(e) ==> e.wf() && e.eigenvectors.inner.nrows == self.inner.nrows
                && e.unit_k == self.unit && e.unit_m == m.unit,
    {
        let root = match m.unit.sqrt() {
            Some(u) => u,
            None => {
                assert(false);
                return None;
            },
        };
        proof { lemma_sqrt_operable(m.unit.exps()); }
        let l = match na_cholesky_l(&m.inner) {
            Some(l) => l,
            None => return None,
        };
        let l_inv = match na_try_inverse(&l) {
            Some(x) => x,
            None => return None,
        };
        let l_inv_adj = na_adjoint(&l_inv);
        let c = na_mul(&na_mul(&l_inv, &self.inner), &l_inv_adj);
        let (vecs, vals) = match na_symmetric_eigen(&c, ITERATION_LIMIT) {
            Some(f) => f,
            None => return None,
        };
        let v = na_mul(&l_inv_adj, &vecs);
        Some(GeneralizedSymmetricEigen {
            eigenvalues: UniformUnitMatrix { inner: vals, unit: self.unit.div(&m.unit) },
            eigenvectors: UniformUnitMatrix { inner: v, unit: root.inv() },
            unit_k: self.unit,
            unit_m: m.unit,
        })
    }
}

impl<T: nalgebra::RealField + Copy> UniformUnitMatrix<T> {
    /// The Schur form `M = Q T Qᴴ` of a non-empty square matrix: `Q`
    /// dimensionless, `T` of this unit (`None` when the backend's iteration
    /// does not converge within [`ITERATION_LIMIT`] sweeps).
    pub fn schur(&self) -> (r: Option<UniformSchur<T>>)
        requires
            self.wf(),
            self.inner.nrows == self.inner.ncols,
            self.inner.nrows > 0,
        ensures
            r matches Some(f) ==> f.wf() && f.q.inner.nrows == self.inner.nrows && f.t.unit == self.unit,
    {
        match na_schur(&self.inner, ITERATION_LIMIT) {
            Some((q, t)) => Some(UniformSchur {
                q: UniformUnitMatrix { inner: q, unit: Unit::dimensionless() },
                t: UniformUnitMatrix { inner: t, unit: self.unit },
            }),
            None => None,
        }
    }
}

impl<T: nalgebra::RealField + Copy> UniformUnitMatrix<T> {
    /// The eigenvalues of the pencil `K v = λ M v` for this square `K` and
    /// an invertible `m` of the same size, as those of `M⁻¹ K`, of unit
    /// `U / Um` (`None` when `m` is singular or the spectrum is not real).
    pub fn generalized_eigenvalues(&self, m: &UniformUnitMatrix<T>) -> (r: Option<UniformUnitMatrix<T>>)
        requires
            self.wf(),
            m.wf(),
            self.inner.nrows == self.inner.ncols,
            self.inner.nrows > 0,
            m.inner.nrows == self.inner.nrows,
            m.inner.ncols == self.inner.nrows,
            self.unit.operable(),
            m.unit.operable(),
        ensures
            r matches Some(v) ==> v.wf() && v.inner.nrows == self.inner.nrows && v.inner.ncols == 1
                && v.unit.exps() == spec_div(self.unit.exps(), m.unit.exps()),
    {
        let m_inv = match na_try_inverse(&m.inner) {
            Some(x) => x,
            None => return None,
        };
        with_unit(na_eigenvalues(&na_mul(&m_inv, &self.inner), ITERATION_LIMIT), self.unit.div(&m.unit))
    }
}

} // verus!
