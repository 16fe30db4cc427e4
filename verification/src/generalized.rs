//! Metric-relative (generalized) decompositions of mixed matrices.
//!
//! A mixed matrix `M : ⟨R, C⟩` has no canonical inner product: a Euclidean
//! QR, SVD or pseudo-inverse would sum entries of different units. These
//! decompositions therefore take a positive-definite codomain metric
//! `Gr : ⟨1/R, R⟩` (and, where both sides matter, a domain metric
//! `Gc : ⟨1/C, C⟩`), whiten by their Cholesky factors `Gr = Lr Lrᴴ`,
//! `Gc = Lc Lcᴴ` to the dimensionless `M̂ = Lrᴴ M Lc⁻ᴴ`, decompose that, and map
//! the factors back. The orthogonal factors land in `⟨R, P⟩` and `⟨C, P⟩`
//! over the thin dimensionless pivot axis `P` of length `min(m, n)`.

use vstd::prelude::*;
use crate::linalg::ITERATION_LIMIT;
use crate::backend::{na_adjoint, na_mul, na_solve_upper, na_try_inverse, shaped};
use crate::backend_decomp::{
    min_dim, na_bidiagonalize, na_cholesky_l, na_col_piv_qr, na_pseudo_inverse, na_qr, na_svd,
};
use crate::decomp::{diag_of, dimensionless_column, dimensionless_list, ones};
use crate::dims::{copy_list, is_mapped, UnitMap};
use crate::matrix::MixedUnitMatrix;
use crate::raw::RawMatrix;
use crate::uniform::UniformUnitMatrix;
use crate::unit::{spec_one, Unit};

verus! {

/// `g` is a metric on the space with units `d`: `⟨1/d, d⟩`.
pub open spec fn metric_on<T>(g: MixedUnitMatrix<T>, d: Seq<Unit>) -> bool {
    &&& g.wf()
    &&& is_mapped(UnitMap::Reciprocal, d, g.rows())
    &&& g.cols() == d
}

/// `a · c <= b · c` for `0 <= a <= b` and `c >= 0`.
pub proof fn lemma_mul_mono(a: int, b: int, c: int)
    requires
        0 <= a <= b,
        0 <= c,
    ensures
        a * c <= b * c,
{
    assert(a * c <= b * c) by (nonlinear_arith)
        requires 0 <= a <= b, 0 <= c;
}

/// A thin factor `⟨D, P⟩` over `k` pivots has `k · k` within range when
/// `k` is at most its row count.
proof fn lemma_pivot_square_fits<T>(m: RawMatrix<T>, k: int)
    requires
        m.wf(),
        m.ncols == k,
        k <= m.nrows,
    ensures
        k * k <= usize::MAX,
{
    lemma_mul_mono(k, m.nrows as int, k);
}

/// `m` is a well-formed uniform dimensionless matrix of the given shape.
pub open spec fn dimensionless_block<T>(m: UniformUnitMatrix<T>, nrows: int, ncols: int) -> bool {
    &&& m.wf()
    &&& m.inner.nrows == nrows
    &&& m.inner.ncols == ncols
    &&& m.unit.exps() == spec_one()
}

/// The weighted QR `M = Q R` of `M : ⟨R, C⟩` against a codomain metric:
/// `q : ⟨R, P⟩` is metric-orthonormal and `r : ⟨P, C⟩` upper-triangular.
pub struct GeneralizedQR<T> {
    pub q: MixedUnitMatrix<T>,
    pub r: MixedUnitMatrix<T>,
}

impl<T> GeneralizedQR<T> {
    /// The factors share the dimensionless pivot axis.
    pub open spec fn wf(&self) -> bool {
        &&& self.q.wf()
        &&& self.r.wf()
        &&& self.q.cols() == self.r.rows()
        &&& dimensionless_list(self.q.cols(), self.q.cols().len() as int)
    }
}

impl<T: nalgebra::ComplexField + Copy> GeneralizedQR<T> {
    /// Multiplies the factors back together, `Q R : ⟨R, C⟩`.
    pub fn recompose(&self) -> (r: MixedUnitMatrix<T>)
        requires
            self.wf(),
        ensures
            r.wf(),
            r.rows() == self.q.rows(),
            r.cols() == self.r.cols(),
    {
        MixedUnitMatrix {
            inner: na_mul(&self.q.inner, &self.r.inner),
            row_dims: copy_list(&self.q.row_dims),
            col_dims: copy_list(&self.r.col_dims),
        }
    }
}

/// The weighted column-pivoted QR `M P = Q R` of `M : ⟨R, C⟩` against a
/// codomain and a domain metric: `q : ⟨R, P⟩`, the dimensionless `r`
/// (`min × n`) and permutation `p` (`n × n`); the projector `Qᴴ Gr`
/// (`min × m`) and the domain factors `Lc⁻ᴴ`, `Lcᴴ` are kept for solves and
/// for restoring the column units `col_dims`.
pub struct GeneralizedColPivQR<T> {
    pub q: MixedUnitMatrix<T>,
    pub r: UniformUnitMatrix<T>,
    pub p: UniformUnitMatrix<T>,
    pub b_project: RawMatrix<T>,
    pub lc_inv_adj: RawMatrix<T>,
    pub lc_adj: RawMatrix<T>,
    pub col_dims: Vec<Unit>,
}

impl<T> GeneralizedColPivQR<T> {
    /// The factors have consistent shapes over `m` rows, `n` columns and
    /// `k` pivots.
    pub open spec fn wf(&self) -> bool {
        let m = self.q.rows().len() as int;
        let k = self.q.cols().len() as int;
        let n = self.col_dims.len() as int;
        &&& self.q.wf()
        &&& dimensionless_list(self.q.cols(), k)
        &&& dimensionless_block(self.r, k, n)
        &&& dimensionless_block(self.p, n, n)
        &&& shaped(self.b_project, k, m)
        &&& shaped(self.lc_inv_adj, n, n)
        &&& shaped(self.lc_adj, n, n)
    }
}

impl<T: nalgebra::ComplexField + Copy> GeneralizedColPivQR<T> {
    /// Rebuilds `M = Q R Pᵀ Lcᴴ : ⟨R, C⟩`.
    pub fn recompose(&self) -> (r: MixedUnitMatrix<T>)
        requires
            self.wf(),
        ensures
            r.wf(),
            r.rows() == self.q.rows(),
            r.cols() == self.col_dims@,
    {
        let pt = self.p.inner.transpose();
        let m = na_mul(&na_mul(&na_mul(&self.q.inner, &self.r.inner), &pt), &self.lc_adj);
        MixedUnitMatrix { inner: m, row_dims: copy_list(&self.q.row_dims), col_dims: copy_list(&self.col_dims) }
    }

    /// Solves `M x = b` in the metric least-squares sense for a tall or
    /// square `M` (`R` then square): `b : ⟨R, B⟩` gives `x : ⟨C, B⟩`
    /// (`None` when `R` is singular).
    pub fn solve(&self, b: &MixedUnitMatrix<T>) -> (r: Option<MixedUnitMatrix<T>>)
        requires
            self.wf(),
            b.wf(),
            b.rows() == self.q.rows(),
            self.r.inner.nrows == self.r.inner.ncols,
        ensures
            r matches Some(x) ==> x.wf() && x.rows() == self.col_dims@ && x.cols() == b.cols(),
    {
        let z = na_mul(&self.b_project, &b.inner);
        let w = match na_solve_upper(&self.r.inner, &z) {
            Some(w) => w,
            None => return None,
        };
        let x = na_mul(&self.lc_inv_adj, &na_mul(&self.p.inner, &w));
        Some(MixedUnitMatrix { inner: x, row_dims: copy_list(&self.col_dims), col_dims: copy_list(&b.col_dims) })
    }
}

/// The weighted SVD `M = U Σ Vᴴ Gc` of `M : ⟨R, C⟩`: `u : ⟨R, P⟩`,
/// `v : ⟨C, P⟩` and dimensionless singular values.
pub struct GeneralizedSVD<T> {
    pub u: MixedUnitMatrix<T>,
    pub singular_values: UniformUnitMatrix<T>,
    pub v: MixedUnitMatrix<T>,
}

impl<T> GeneralizedSVD<T> {
    /// `u` and `v` share the dimensionless pivot axis, of the singular
    /// values' length, which is at most `u`'s row count.
    pub open spec fn wf(&self) -> bool {
        let k = self.u.cols().len() as int;
        &&& self.u.wf()
        &&& self.v.wf()
        &&& dimensionless_list(self.u.cols(), k)
        &&& self.v.cols() == self.u.cols()
        &&& dimensionless_column(self.singular_values, k)
        &&& k <= self.u.rows().len()
    }
}

impl<T: nalgebra::RealField + Copy> GeneralizedSVD<T> {
    /// Rebuilds `M = U Σ Vᴴ Gc : ⟨R, C⟩` with the domain metric
    /// `g_c : ⟨1/C, C⟩`.
    pub fn recompose(&self, g_c: &MixedUnitMatrix<T>) -> (r: MixedUnitMatrix<T>)
        requires
            self.wf(),
            metric_on(*g_c, self.v.rows()),
        ensures
            r.wf(),
            r.rows() == self.u.rows(),
            r.cols() == g_c.cols(),
    {
        let k = self.u.inner.ncols;
        proof { lemma_pivot_square_fits(self.u.inner, k as int); }
        let sigma = diag_of(&self.singular_values.inner, k);
        let m = na_mul(&na_mul(&na_mul(&self.u.inner, &sigma), &na_adjoint(&self.v.inner)), &g_c.inner);
        MixedUnitMatrix { inner: m, row_dims: copy_list(&self.u.row_dims), col_dims: copy_list(&g_c.col_dims) }
    }
}

/// The weighted bidiagonalization `M = U D Vᴴ Gc` of `M : ⟨R, C⟩`:
/// `u : ⟨R, P⟩`, `v : ⟨C, P⟩` and the dimensionless bidiagonal `d`.
pub struct GeneralizedBidiagonal<T> {
    pub u: MixedUnitMatrix<T>,
    pub d: UniformUnitMatrix<T>,
    pub v: MixedUnitMatrix<T>,
}

impl<T> GeneralizedBidiagonal<T> {
    /// `u` and `v` share the dimensionless pivot axis, of `d`'s size.
    pub open spec fn wf(&self) -> bool {
        let k = self.u.cols().len() as int;
        &&& self.u.wf()
        &&& self.v.wf()
        &&& dimensionless_list(self.u.cols(), k)
        &&& self.v.cols() == self.u.cols()
        &&& dimensionless_block(self.d, k, k)
    }
}

impl<T: nalgebra::ComplexField + Copy> GeneralizedBidiagonal<T> {
    /// Rebuilds `M = U D Vᴴ Gc : ⟨R, C⟩` with the domain metric
    /// `g_c : ⟨1/C, C⟩`.
    pub fn recompose(&self, g_c: &MixedUnitMatrix<T>) -> (r: MixedUnitMatrix<T>)
        requires
            self.wf(),
            metric_on(*g_c, self.v.rows()),
        ensures
            r.wf(),
            r.rows() == self.u.rows(),
            r.cols() == g_c.cols(),
    {
        let m = na_mul(&na_mul(&na_mul(&self.u.inner, &self.d.inner), &na_adjoint(&self.v.inner)), &g_c.inner);
        MixedUnitMatrix { inner: m, row_dims: copy_list(&self.u.row_dims), col_dims: copy_list(&g_c.col_dims) }
    }
}

/// The Cholesky factor of a metric and the adjoint of its inverse,
/// `(L, L⁻ᴴ)`, or `None` when the metric is not positive-definite or the
/// factor is singular.
fn metric_root<T: nalgebra::ComplexField + Copy>(g: &RawMatrix<T>) -> (r: Option<(RawMatrix<T>, RawMatrix<T>)>)
    requires
        g.wf(),
        g.nrows == g.ncols,
    ensures
        r matches Some(f) ==> shaped(f.0, g.nrows as int, g.nrows as int) && shaped(f.1, g.nrows as int, g.nrows as int),
{
    let l = match na_cholesky_l(g) {
        Some(l) => l,
        None => return None,
    };
    let l_inv = match na_try_inverse(&l) {
        Some(x) => x,
        None => return None,
    };
    let l_inv_adj = na_adjoint(&l_inv);
    Some((l, l_inv_adj))
}

impl<T: nalgebra::ComplexField + Copy> MixedUnitMatrix<T> {
    /// The weighted QR `M = Q R` against the codomain metric
    /// `g_r : ⟨1/R, R⟩`: with `Gr = Lr Lrᴴ`, the row-whitened `Lrᴴ M` is
    /// factored as `Q̂ R` and `Q = Lr⁻ᴴ Q̂`. `None` when the metric has no
    /// Cholesky factor or the factor is singular.
    pub fn generalized_qr(self, g_r: &MixedUnitMatrix<T>) -> (r: Option<GeneralizedQR<T>>)
        requires
            self.wf(),
            metric_on(*g_r, self.rows()),
        ensures
            r matches Some(f) ==> f.wf() && f.q.rows() == self.rows() && f.r.cols() == self.cols()
                && dimensionless_list(f.q.cols(), min_dim(self.rows().len() as int, self.cols().len() as int)),
    {
        let (lr, lr_inv_adj) = match metric_root(&g_r.inner) {
            Some(f) => f,
            None => return None,
        };
        let m_hat = na_mul(&na_adjoint(&lr), &self.inner);
        let (q_hat, r) = na_qr(&m_hat);
        let q = na_mul(&lr_inv_adj, &q_hat);
        let k = q_hat.ncols;
        let pivot = ones(k);
        let pivot2 = ones(k);
        assert(pivot@ =~= pivot2@);
        Some(GeneralizedQR {
            q: MixedUnitMatrix { inner: q, row_dims: self.row_dims, col_dims: pivot },
            r: MixedUnitMatrix { inner: r, row_dims: pivot2, col_dims: self.col_dims },
        })
    }

    /// The weighted column-pivoted QR `M P = Q R` against the codomain metric
    /// `g_r : ⟨1/R, R⟩` and the domain metric `g_c : ⟨1/C, C⟩`: the fully
    /// whitened `M̂ = Lrᴴ M Lc⁻ᴴ` is factored as `Q̂ R P`, and `Q = Lr⁻ᴴ Q̂`.
    /// `None` when a metric has no Cholesky factor or a factor is singular.
    pub fn generalized_col_piv_qr(self, g_r: &MixedUnitMatrix<T>, g_c: &MixedUnitMatrix<T>) -> (r: Option<GeneralizedColPivQR<T>>)
        requires
            self.wf(),
            metric_on(*g_r, self.rows()),
            metric_on(*g_c, self.cols()),
        ensures
            r matches Some(f) ==> f.wf() && f.q.rows() == self.rows() && f.col_dims@ == self.cols()
                && f.q.cols().len() == min_dim(self.rows().len() as int, self.cols().len() as int),
    {
        let (lr, lr_inv_adj) = match metric_root(&g_r.inner) {
            Some(f) => f,
            None => return None,
        };
        let (lc, lc_inv_adj) = match metric_root(&g_c.inner) {
            Some(f) => f,
            None => return None,
        };
        let lr_adj = na_adjoint(&lr);
        let lc_adj = na_adjoint(&lc);
        let m_hat = na_mul(&na_mul(&lr_adj, &self.inner), &lc_inv_adj);
        let (q_hat, r, p) = na_col_piv_qr(&m_hat);
        let b_project = na_mul(&na_adjoint(&q_hat), &lr_adj);
        let q = na_mul(&lr_inv_adj, &q_hat);
        let k = q_hat.ncols;
        Some(GeneralizedColPivQR {
            q: MixedUnitMatrix { inner: q, row_dims: self.row_dims, col_dims: ones(k) },
            r: UniformUnitMatrix { inner: r, unit: Unit::dimensionless() },
            p: UniformUnitMatrix { inner: p, unit: Unit::dimensionless() },
            b_project,
            lc_inv_adj,
            lc_adj,
            col_dims: self.col_dims,
        })
    }

    /// The weighted bidiagonalization `M = U D Vᴴ Gc` of a matrix with no
    /// empty axis against the metrics `g_r : ⟨1/R, R⟩` and `g_c : ⟨1/C, C⟩`:
    /// `M̂ = Lrᴴ M Lc⁻ᴴ = Û D V̂ᴴ`, `U = Lr⁻ᴴ Û`, `V = Lc⁻ᴴ V̂`. `None` when a
    /// metric has no Cholesky factor or a factor is singular.
    pub fn generalized_bidiagonalize(self, g_r: &MixedUnitMatrix<T>, g_c: &MixedUnitMatrix<T>) -> (r: Option<GeneralizedBidiagonal<T>>)
        requires
            self.wf(),
            metric_on(*g_r, self.rows()),
            metric_on(*g_c, self.cols()),
            self.rows().len() > 0,
            self.cols().len() > 0,
        ensures
            r matches Some(f) ==> f.wf() && f.u.rows() == self.rows() && f.v.rows() == self.cols()
                && f.u.cols().len() == min_dim(self.rows().len() as int, self.cols().len() as int),
    {
        let (lr, lr_inv_adj) = match metric_root(&g_r.inner) {
            Some(f) => f,
            None => return None,
        };
        let (_lc, lc_inv_adj) = match metric_root(&g_c.inner) {
            Some(f) => f,
            None => return None,
        };
        let m_hat = na_mul(&na_mul(&na_adjoint(&lr), &self.inner), &lc_inv_adj);
        let (u_hat, d, vt_hat) = na_bidiagonalize(&m_hat);
        let u = na_mul(&lr_inv_adj, &u_hat);
        let v = na_mul(&lc_inv_adj, &na_adjoint(&vt_hat));
        let k = u_hat.ncols;
        let pivot = ones(k);
        let pivot2 = ones(k);
        assert(pivot@ =~= pivot2@);
        Some(GeneralizedBidiagonal {
            u: MixedUnitMatrix { inner: u, row_dims: self.row_dims, col_dims: pivot },
            d: UniformUnitMatrix { inner: d, unit: Unit::dimensionless() },
            v: MixedUnitMatrix { inner: v, row_dims: self.col_dims, col_dims: pivot2 },
        })
    }
}

/// The error of a metric-relative pseudo-inverse decided by the Cholesky
/// factorizations of its two metrics, taken in order: a codomain metric
/// without a factor (`codomain`, `None`) is reported first, then a domain
/// metric without one; when both factor there is no error here.
pub fn metric_factor_error<T>(codomain: &Option<RawMatrix<T>>, domain: &Option<RawMatrix<T>>) -> (r: Option<&'static str>)
    ensures
        codomain is None ==> (r matches Some(e) && e@ == "codomain metric is not positive-definite"@),
        codomain is Some && domain is None ==> (r matches Some(e) && e@ == "domain metric is not positive-definite"@),
        codomain is Some && domain is Some ==> r is None,
{
    match codomain {
        None => Some("codomain metric is not positive-definite"),
        Some(_) => match domain {
            None => Some("domain metric is not positive-definite"),
            Some(_) => None,
        },
    }
}

impl<T: nalgebra::RealField + Copy> MixedUnitMatrix<T> {
    /// The weighted SVD `M = U Σ Vᴴ Gc` of a matrix with no empty axis
    /// against the metrics `g_r : ⟨1/R, R⟩` and `g_c : ⟨1/C, C⟩`:
    /// `M̂ = Lrᴴ M Lc⁻ᴴ = Û Σ V̂ᴴ`, `U = Lr⁻ᴴ Û`, `V = Lc⁻ᴴ V̂`. `None` when a
    /// metric has no Cholesky factor, a factor is singular, or the backend's
    /// decomposition of `M̂` does not converge within [`ITERATION_LIMIT`]
    /// sweeps.
    pub fn generalized_svd(self, g_r: &MixedUnitMatrix<T>, g_c: &MixedUnitMatrix<T>) -> (r: Option<GeneralizedSVD<T>>)
        requires
            self.wf(),
            metric_on(*g_r, self.rows()),
            metric_on(*g_c, self.cols()),
            self.rows().len() > 0,
            self.cols().len() > 0,
        ensures
            r matches Some(f) ==> f.wf() && f.u.rows() == self.rows() && f.v.rows() == self.cols()
                && f.u.cols().len() == min_dim(self.rows().len() as int, self.cols().len() as int),
    {
        let (lr, lr_inv_adj) = match metric_root(&g_r.inner) {
            Some(f) => f,
            None => return None,
        };
        let (_lc, lc_inv_adj) = match metric_root(&g_c.inner) {
            Some(f) => f,
            None => return None,
        };
        let m_hat = na_mul(&na_mul(&na_adjoint(&lr), &self.inner), &lc_inv_adj);
        let (u_hat, sv, vt_hat) = match na_svd(&m_hat, ITERATION_LIMIT) {
            Some(f) => f,
            None => return None,
        };
        let u = na_mul(&lr_inv_adj, &u_hat);
        let v = na_mul(&lc_inv_adj, &na_adjoint(&vt_hat));
        let k = u_hat.ncols;
        let pivot = ones(k);
        let pivot2 = ones(k);
        assert(pivot@ =~= pivot2@);
        Some(GeneralizedSVD {
            u: MixedUnitMatrix { inner: u, row_dims: self.row_dims, col_dims: pivot },
            singular_values: UniformUnitMatrix { inner: sv, unit: Unit::dimensionless() },
            v: MixedUnitMatrix { inner: v, row_dims: self.col_dims, col_dims: pivot2 },
        })
    }

    /// The metric-relative pseudo-inverse `A⁺ = Lc⁻ᴴ M̂⁺ Lrᴴ : ⟨C, R⟩` of a
    /// matrix with no empty axis against the metrics `g_r : ⟨1/R, R⟩` and
    /// `g_c : ⟨1/C, C⟩`, where `M̂ = Lrᴴ M Lc⁻ᴴ` and singular values below
    /// `eps` count as zero. The error names the metric that fails (as
    /// [`metric_factor_error`] decides from the two factorizations), or is
    /// nalgebra's (a negative `eps`), or reports that the decomposition of
    /// `M̂` did not converge within [`ITERATION_LIMIT`] sweeps.
    pub fn generalized_pseudo_inverse(self, g_r: &MixedUnitMatrix<T>, g_c: &MixedUnitMatrix<T>, eps: T) -> (r: Result<MixedUnitMatrix<T>, &'static str>)
        requires
            self.wf(),
            metric_on(*g_r, self.rows()),
            metric_on(*g_c, self.cols()),
            self.rows().len() > 0,
            self.cols().len() > 0,
        ensures
            r matches Ok(x) ==> x.wf() && x.rows() == self.cols() && x.cols() == self.rows(),
            r matches Err(e) ==> e@ == "codomain metric is not positive-definite"@
                || e@ == "domain metric is not positive-definite"@
                || e@ == "domain metric is not invertible"@
                || e@ == "SVD pseudo inverse: the epsilon must be non-negative."@
                || e@ == "singular value decomposition did not converge"@,
    {
        let lr_f = na_cholesky_l(&g_r.inner);
        let lc_f = na_cholesky_l(&g_c.inner);
        match metric_factor_error(&lr_f, &lc_f) {
            Some(e) => return Err(e),
            None => {},
        }
        let (lr, lc) = match (lr_f, lc_f) {
            (Some(lr), Some(lc)) => (lr, lc),
            _ => return Err("codomain metric is not positive-definite"),
        };
        let lr_adj = na_adjoint(&lr);
        let lc_inv = match na_try_inverse(&lc) {
            Some(x) => x,
            None => return Err("domain metric is not invertible"),
        };
        let lc_inv_adj = na_adjoint(&lc_inv);
        let m_hat = na_mul(&na_mul(&lr_adj, &self.inner), &lc_inv_adj);
        let pinv = match na_pseudo_inverse(&m_hat, eps, ITERATION_LIMIT) {
            Some(Ok(p)) => p,
            Some(Err(e)) => return Err(e),
            None => return Err("singular value decomposition did not converge"),
        };
        let a = na_mul(&na_mul(&lc_inv_adj, &pinv), &lr_adj);
        Ok(MixedUnitMatrix { inner: a, row_dims: self.col_dims, col_dims: self.row_dims })
    }
}

} // verus!
