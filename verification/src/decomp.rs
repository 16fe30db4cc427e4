//! Decompositions of mixed-unit metrics.
//!
//! A *metric* is a square matrix `⟨D, 1/D⟩`: its column units are the
//! reciprocals of its row units, so it is its own transpose as a type. Its
//! orthogonal factors live in `⟨D, [1 … 1]⟩` (the row units, with
//! dimensionless columns) and its reduced forms are dimensionless, so that
//! `Q · X · Qᴴ` lands back in `⟨D, 1/D⟩`. No unit is ever rooted: the square
//! roots of a Cholesky factor stay in the numbers.

use vstd::prelude::*;
use crate::backend::{na_adjoint, na_mul, na_try_inverse, na_zero};
use crate::backend_decomp::{
    na_cholesky_determinant, na_cholesky_inverse, na_cholesky_l, na_cholesky_solve, na_hessenberg,
    na_schur, na_symmetric_eigen, na_symmetric_tridiagonalize, na_udu,
};
use crate::dims::{copy_list, is_mapped, list_operable, map_units, repeat, UnitMap};
use crate::linalg::{det_unit, det_unit_defined, determinant_unit, with_units, ITERATION_LIMIT};
use crate::matrix::MixedUnitMatrix;
use crate::quantity::Quantity;
use crate::raw::RawMatrix;
use crate::uniform::UniformUnitMatrix;
use crate::unit::{spec_inv, spec_one, Unit};

verus! {

/// The column units are the reciprocals of the row units: `⟨D, 1/D⟩`.
pub open spec fn spec_metric(rows: Seq<Unit>, cols: Seq<Unit>) -> bool {
    &&& rows.len() == cols.len()
    &&& forall|i: int| 0 <= i < rows.len() ==> (#[trigger] cols[i]).exps() == spec_inv(rows[i].exps())
}

/// `l` is `n` copies of the dimensionless unit.
pub open spec fn dimensionless_list(l: Seq<Unit>, n: int) -> bool {
    &&& l.len() == n
    &&& forall|i: int| 0 <= i < n ==> (#[trigger] l[i]).exps() == spec_one()
}

/// `m` is a well-formed `n × n` uniform matrix of the dimensionless unit.
pub open spec fn dimensionless_square<T>(m: UniformUnitMatrix<T>, n: int) -> bool {
    &&& m.wf()
    &&& m.inner.nrows == n
    &&& m.inner.ncols == n
    &&& m.unit.exps() == spec_one()
}

/// `m` is a well-formed `n × 1` uniform column of the dimensionless unit.
pub open spec fn dimensionless_column<T>(m: UniformUnitMatrix<T>, n: int) -> bool {
    &&& m.wf()
    &&& m.inner.nrows == n
    &&& m.inner.ncols == 1
    &&& m.unit.exps() == spec_one()
}

/// `n` copies of the dimensionless unit.
pub fn ones(n: usize) -> (r: Vec<Unit>)
    ensures
        dimensionless_list(r@, n as int),
{
    let one = Unit::dimensionless();
    repeat(&one, n)
}

/// `q · x · qᴴ` for square `q` and `x` of one size.
pub(crate) fn similarity<T: nalgebra::ComplexField + Copy>(q: &RawMatrix<T>, x: &RawMatrix<T>) -> (r: RawMatrix<T>)
    requires
        q.wf(),
        x.wf(),
        q.nrows == q.ncols,
        x.nrows == q.nrows,
        x.ncols == q.nrows,
    ensures
        r.wf(),
        r.nrows == q.nrows,
        r.ncols == q.nrows,
{
    na_mul(&na_mul(q, x), &na_adjoint(q))
}

/// The square matrix with the column `d` on its diagonal.
pub(crate) fn diag_of<T: nalgebra::ComplexField + Copy>(d: &RawMatrix<T>, n: usize) -> (r: RawMatrix<T>)
    requires
        d.wf(),
        d.nrows == n,
        d.ncols == 1,
        n * n <= usize::MAX,
    ensures
        r.wf(),
        r.nrows == n,
        r.ncols == n,
{
    RawMatrix::from_diagonal(d, na_zero())
}

/// A square matrix whose storage fits in memory has `n · n` within range.
pub proof fn lemma_square_fits<T>(m: RawMatrix<T>)
    requires
        m.wf(),
        m.nrows == m.ncols,
    ensures
        m.nrows * m.nrows <= usize::MAX,
{
}

/// `q` is `⟨D, [1 … 1]⟩` over operable units `D` and `x` a dimensionless
/// square of the same size: the factors `Q X Qᴴ` of a similarity
/// decomposition of a metric.
pub open spec fn metric_factors<T>(q: MixedUnitMatrix<T>, x: UniformUnitMatrix<T>) -> bool {
    &&& q.wf()
    &&& list_operable(q.rows())
    &&& dimensionless_list(q.cols(), q.rows().len() as int)
    &&& dimensionless_square(x, q.rows().len() as int)
}

/// Multiplies similarity factors back together, `Q X Qᴴ : ⟨D, 1/D⟩`.
fn metric_similarity<T: nalgebra::ComplexField + Copy>(q: &MixedUnitMatrix<T>, x: &UniformUnitMatrix<T>) -> (r: MixedUnitMatrix<T>)
    requires
        metric_factors(*q, *x),
    ensures
        r.wf(),
        r.rows() == q.rows(),
        is_mapped(UnitMap::Reciprocal, q.rows(), r.cols()),
        spec_metric(r.rows(), r.cols()),
{
    let m = similarity(&q.inner, &x.inner);
    let cols = map_units(&UnitMap::Reciprocal, &q.row_dims);
    MixedUnitMatrix { inner: m, row_dims: copy_list(&q.row_dims), col_dims: cols }
}

/// The Schur form `M = Q T Qᴴ` of a metric: `q : ⟨D, [1 … 1]⟩` and the
/// dimensionless quasi-triangular `t`.
pub struct Schur<T> {
    pub q: MixedUnitMatrix<T>,
    pub t: UniformUnitMatrix<T>,
}

/// The Hessenberg form `M = Q H Qᴴ` of a metric: `q : ⟨D, [1 … 1]⟩` and the
/// dimensionless upper-Hessenberg `h`.
pub struct Hessenberg<T> {
    pub q: MixedUnitMatrix<T>,
    pub h: UniformUnitMatrix<T>,
}

/// The tridiagonalization `M = Q T Qᴴ` of a symmetric metric:
/// `q : ⟨D, [1 … 1]⟩` and the dimensionless symmetric tridiagonal `t`.
pub struct SymmetricTridiagonal<T> {
    pub q: MixedUnitMatrix<T>,
    pub t: UniformUnitMatrix<T>,
}

impl<T> Schur<T> {
    /// The factors of a similarity decomposition of a metric.
    pub open spec fn wf(&self) -> bool {
        metric_factors(self.q, self.t)
    }
}

impl<T> Hessenberg<T> {
    /// The factors of a similarity decomposition of a metric.
    pub open spec fn wf(&self) -> bool {
        metric_factors(self.q, self.h)
    }
}

impl<T> SymmetricTridiagonal<T> {
    /// The factors of a similarity decomposition of a metric.
    pub open spec fn wf(&self) -> bool {
        metric_factors(self.q, self.t)
    }
}

impl<T: nalgebra::ComplexField + Copy> Schur<T> {
    /// Multiplies the factors back together, `Q T Qᴴ : ⟨D, 1/D⟩`.
    pub fn recompose(&self) -> (r: MixedUnitMatrix<T>)
        requires
            self.wf(),
        ensures
            r.wf(),
            r.rows() == self.q.rows(),
            is_mapped(UnitMap::Reciprocal, self.q.rows(), r.cols()),
    {
        metric_similarity(&self.q, &self.t)
    }
}

impl<T: nalgebra::ComplexField + Copy> Hessenberg<T> {
    /// Multiplies the factors back together, `Q H Qᴴ : ⟨D, 1/D⟩`.
    pub fn recompose(&self) -> (r: MixedUnitMatrix<T>)
        requires
            self.wf(),
        ensures
            r.wf(),
            r.rows() == self.q.rows(),
            is_mapped(UnitMap::Reciprocal, self.q.rows(), r.cols()),
    {
        metric_similarity(&self.q, &self.h)
    }
}

impl<T: nalgebra::ComplexField + Copy> SymmetricTridiagonal<T> {
    /// Multiplies the factors back together, `Q T Qᴴ : ⟨D, 1/D⟩`.
    pub fn recompose(&self) -> (r: MixedUnitMatrix<T>)
        requires
            self.wf(),
        ensures
            r.wf(),
            r.rows() == self.q.rows(),
            is_mapped(UnitMap::Reciprocal, self.q.rows(), r.cols()),
    {
        metric_similarity(&self.q, &self.t)
    }
}

/// The Cholesky factorization `M = L Lᴴ` of a positive-definite metric
/// `M : ⟨D, 1/D⟩`: `l` is `⟨D, [1 … 1]⟩`. Solves, the inverse and the
/// determinant reuse the factor: a substitution through `L` and `Lᴴ`, with
/// no new factorization.
pub struct Cholesky<T> {
    pub l: MixedUnitMatrix<T>,
    pub row_dims: Vec<Unit>,
    pub col_dims: Vec<Unit>,
}

impl<T> Cholesky<T> {
    /// `l` is `⟨D, [1 … 1]⟩` and the factored metric is `⟨D, 1/D⟩`.
    pub open spec fn wf(&self) -> bool {
        &&& self.l.wf()
        &&& self.l.rows() == self.row_dims@
        &&& dimensionless_list(self.l.cols(), self.row_dims.len() as int)
        &&& spec_metric(self.row_dims@, self.col_dims@)
    }
}

impl<T: nalgebra::ComplexField + Copy> Cholesky<T> {
    /// Solves `M x = b` with the factorization; `b` is in the row space
    /// (`⟨D, B⟩`) and the solution in the column space, `⟨1/D, B⟩`.
    pub fn solve(&self, b: &MixedUnitMatrix<T>) -> (r: MixedUnitMatrix<T>)
        requires
            self.wf(),
            b.wf(),
            b.rows() == self.row_dims@,
        ensures
            r.wf(),
            r.rows() == self.col_dims@,
            r.cols() == b.cols(),
            r.inner.nrows == b.inner.nrows,
            r.inner.ncols == b.inner.ncols,
    {
        let x = na_cholesky_solve(&self.l.inner, &b.inner);
        MixedUnitMatrix { inner: x, row_dims: copy_list(&self.col_dims), col_dims: copy_list(&b.col_dims) }
    }

    /// The inverse `M⁻¹ : ⟨1/D, D⟩`.
    pub fn inverse(&self) -> (r: MixedUnitMatrix<T>)
        requires
            self.wf(),
        ensures
            r.wf(),
            r.rows() == self.col_dims@,
            r.cols() == self.row_dims@,
    {
        let x = na_cholesky_inverse(&self.l.inner);
        MixedUnitMatrix { inner: x, row_dims: copy_list(&self.col_dims), col_dims: copy_list(&self.row_dims) }
    }

    /// The determinant, of unit `∏ D / ∏ (1/D)`.
    pub fn determinant(&self) -> (r: Quantity<T>)
        requires
            self.wf(),
            det_unit_defined(self.row_dims@, self.col_dims@),
        ensures
            r.unit.exps() == det_unit(self.row_dims@, self.col_dims@),
    {
        Quantity { value: na_cholesky_determinant(&self.l.inner), unit: determinant_unit(&self.row_dims, &self.col_dims) }
    }
}

/// The spectral decomposition `M = V Λ Vᴴ` of a real symmetric metric:
/// `eigenvectors` is `⟨D, [1 … 1]⟩` and `eigenvalues` a dimensionless
/// column.
pub struct SymmetricEigen<T> {
    pub eigenvectors: MixedUnitMatrix<T>,
    pub eigenvalues: UniformUnitMatrix<T>,
}

impl<T> SymmetricEigen<T> {
    /// The eigenvectors are `⟨D, [1 … 1]⟩` over operable units and the
    /// eigenvalues a dimensionless column of the same length.
    pub open spec fn wf(&self) -> bool {
        &&& self.eigenvectors.wf()
        &&& list_operable(self.eigenvectors.rows())
        &&& dimensionless_list(self.eigenvectors.cols(), self.eigenvectors.rows().len() as int)
        &&& dimensionless_column(self.eigenvalues, self.eigenvectors.rows().len() as int)
    }
}

impl<T: nalgebra::RealField + Copy> SymmetricEigen<T> {
    /// Multiplies the factors back together, `V Λ Vᴴ : ⟨D, 1/D⟩`.
    pub fn recompose(&self) -> (r: MixedUnitMatrix<T>)
        requires
            self.wf(),
        ensures
            r.wf(),
            r.rows() == self.eigenvectors.rows(),
            is_mapped(UnitMap::Reciprocal, self.eigenvectors.rows(), r.cols()),
    {
        let n = self.eigenvectors.inner.nrows;
        proof { lemma_square_fits(self.eigenvectors.inner); }
        let lambda = diag_of(&self.eigenvalues.inner, n);
        let m = similarity(&self.eigenvectors.inner, &lambda);
        let cols = map_units(&UnitMap::Reciprocal, &self.eigenvectors.row_dims);
        MixedUnitMatrix { inner: m, row_dims: copy_list(&self.eigenvectors.row_dims), col_dims: cols }
    }
}

/// The factorization `M = U D Uᴴ` of a real symmetric metric: `u` is
/// `⟨D, [1 … 1]⟩` and `d` a dimensionless column.
pub struct UDU<T> {
    pub u: MixedUnitMatrix<T>,
    pub d: UniformUnitMatrix<T>,
}

impl<T> UDU<T> {
    /// `u` is `⟨D, [1 … 1]⟩` over operable units and `d` a dimensionless
    /// column of the same length.
    pub open spec fn wf(&self) -> bool {
        &&& self.u.wf()
        &&& list_operable(self.u.rows())
        &&& dimensionless_list(self.u.cols(), self.u.rows().len() as int)
        &&& dimensionless_column(self.d, self.u.rows().len() as int)
    }
}

impl<T: nalgebra::RealField + Copy> UDU<T> {
    /// Multiplies the factors back together, `U D Uᴴ : ⟨D, 1/D⟩`.
    pub fn recompose(&self) -> (r: MixedUnitMatrix<T>)
        requires
            self.wf(),
        ensures
            r.wf(),
            r.rows() == self.u.rows(),
            is_mapped(UnitMap::Reciprocal, self.u.rows(), r.cols()),
    {
        let n = self.u.inner.nrows;
        proof { lemma_square_fits(self.u.inner); }
        let d = diag_of(&self.d.inner, n);
        let m = similarity(&self.u.inner, &d);
        let cols = map_units(&UnitMap::Reciprocal, &self.u.row_dims);
        MixedUnitMatrix { inner: m, row_dims: copy_list(&self.u.row_dims), col_dims: cols }
    }
}

/// The solution of the pencil `K v = λ M v` of two real symmetric metrics
/// `⟨D, 1/D⟩`: the eigenvalues are a dimensionless column and the
/// eigenvectors are `⟨1/D, [1 … 1]⟩`.
pub struct MetricGeneralizedEigen<T> {
    pub eigenvalues: UniformUnitMatrix<T>,
    pub eigenvectors: MixedUnitMatrix<T>,
}

impl<T> MetricGeneralizedEigen<T> {
    /// The eigenvectors are `⟨1/D, [1 … 1]⟩` for operable `D` of the
    /// eigenvalues' length.
    pub open spec fn wf(&self) -> bool {
        &&& self.eigenvectors.wf()
        &&& dimensionless_list(self.eigenvectors.cols(), self.eigenvectors.rows().len() as int)
        &&& dimensionless_column(self.eigenvalues, self.eigenvectors.rows().len() as int)
    }
}

impl<T: nalgebra::RealField + Copy> MetricGeneralizedEigen<T> {
    /// Rebuilds `K = M V Λ Vᴴ M` from the mass metric `m : ⟨D, 1/D⟩`
    /// (with `1/D` the eigenvectors' rows); the result is `⟨D, 1/D⟩`.
    pub fn recompose(&self, m: &MixedUnitMatrix<T>) -> (r: MixedUnitMatrix<T>)
        requires
            self.wf(),
            m.wf(),
            is_mapped(UnitMap::Reciprocal, m.rows(), self.eigenvectors.rows()),
            m.cols() == self.eigenvectors.rows(),
        ensures
            r.wf(),
            r.rows() == m.rows(),
            r.cols() == m.cols(),
    {
        let n = self.eigenvectors.inner.nrows;
        proof { lemma_square_fits(self.eigenvectors.inner); }
        let lambda = diag_of(&self.eigenvalues.inner, n);
        let v = &self.eigenvectors.inner;
        let k = na_mul(&na_mul(&na_mul(&na_mul(&m.inner, v), &lambda), &na_adjoint(v)), &m.inner);
        MixedUnitMatrix { inner: k, row_dims: copy_list(&m.row_dims), col_dims: copy_list(&m.col_dims) }
    }
}

/// The symmetric tridiagonal matrix with diagonal `d` and off-diagonal `o`.
pub(crate) fn tridiagonal<T: nalgebra::RealField + Copy>(d: Vec<T>, o: &Vec<T>) -> (r: RawMatrix<T>)
    requires
        d.len() > 0,
        o.len() == d.len() - 1,
        d.len() * d.len() <= usize::MAX,
    ensures
        r.wf(),
        r.nrows == d.len(),
        r.ncols == d.len(),
        forall|i: int| 0 <= i < d.len() ==> #[trigger] r.at(i, i) == d@[i],
        forall|i: int| 0 <= i < o.len() ==> r.at(i, i + 1) == #[trigger] o@[i] && r.at(i + 1, i) == o@[i],
{
    let n = d.len();
    let ghost dv = d@;
    let col = RawMatrix { nrows: n, ncols: 1, data: d };
    let mut t = RawMatrix::from_diagonal(&col, na_zero());
    assert forall|i: int| 0 <= i < n implies #[trigger] t.at(i, i) == dv[i] by {
        assert(col.at(i, 0) == dv[i]);
    }
    let mut i: usize = 0;
    while i < o.len()
        invariant
            i <= o.len(),
            o.len() == n - 1,
            n == dv.len(),
            t.wf(),
            t.nrows == n,
            t.ncols == n,
            forall|k: int| 0 <= k < n ==> #[trigger] t.at(k, k) == dv[k],
            forall|k: int| 0 <= k < i ==> t.at(k, k + 1) == #[trigger] o@[k] && t.at(k + 1, k) == o@[k],
        decreases o.len() - i,
    {
        let ghost t0 = t;
        t.set(i, i + 1, o[i]);
        let ghost t1 = t;
        t.set(i + 1, i, o[i]);
        proof {
            assert forall|k: int| 0 <= k < n implies #[trigger] t.at(k, k) == dv[k] by {
                assert(t1.at(k, k) == t0.at(k, k));
            }
            assert forall|k: int| 0 <= k < i + 1 implies t.at(k, k + 1) == #[trigger] o@[k] && t.at(k + 1, k) == o@[k] by {
                assert(t1.at(k, k + 1) == t0.at(k, k + 1) || k == i);
                assert(t1.at(k + 1, k) == t0.at(k + 1, k));
                assert(t.at(k, k + 1) == t1.at(k, k + 1));
            }
        }
        i += 1;
    }
    t
}

impl<T: nalgebra::ComplexField + Copy> MixedUnitMatrix<T> {
    /// The Cholesky factor of a metric `⟨D, 1/D⟩` (`None` when it is not
    /// positive-definite): `L : ⟨D, [1 … 1]⟩` with `M = L Lᴴ`.
    pub fn cholesky(self) -> (r: Option<Cholesky<T>>)
        requires
            self.wf(),
            spec_metric(self.rows(), self.cols()),
        ensures
            r matches Some(c) ==> c.wf() && c.row_dims@ == self.rows() && c.col_dims@ == self.cols()
                && c.l.rows() == self.rows(),
    {
        match na_cholesky_l(&self.inner) {
            Some(l) => {
                let n = self.row_dims.len();
                let lm = MixedUnitMatrix { inner: l, row_dims: copy_list(&self.row_dims), col_dims: ones(n) };
                Some(Cholesky { l: lm, row_dims: self.row_dims, col_dims: self.col_dims })
            },
            None => None,
        }
    }

    /// The Hessenberg form `M = Q H Qᴴ` of a non-empty metric `⟨D, 1/D⟩`:
    /// `Q` is `⟨D, [1 … 1]⟩` and `H` dimensionless.
    pub fn hessenberg(&self) -> (r: Hessenberg<T>)
        requires
            self.wf(),
            self.units_operable(),
            spec_metric(self.rows(), self.cols()),
            self.rows().len() > 0,
        ensures
            r.wf(),
            r.q.rows() == self.rows(),
    {
        let (q, h) = na_hessenberg(&self.inner);
        let (q, h) = self.metric_factor(q, h);
        Hessenberg { q, h }
    }

    /// Tags the factors `q`, `x` of a similarity decomposition of this metric.
    fn metric_factor(&self, q: RawMatrix<T>, x: RawMatrix<T>) -> (r: (MixedUnitMatrix<T>, UniformUnitMatrix<T>))
        requires
            self.wf(),
            self.units_operable(),
            q.wf(),
            x.wf(),
            q.nrows == self.rows().len(),
            q.ncols == self.rows().len(),
            x.nrows == self.rows().len(),
            x.ncols == self.rows().len(),
        ensures
            metric_factors(r.0, r.1),
            r.0.rows() == self.rows(),
            r.0.inner == q,
            r.1.inner == x,
    {
        let n = self.row_dims.len();
        (MixedUnitMatrix { inner: q, row_dims: copy_list(&self.row_dims), col_dims: ones(n) },
         UniformUnitMatrix { inner: x, unit: Unit::dimensionless() })
    }

}

impl<T: nalgebra::RealField + Copy> MixedUnitMatrix<T> {
    /// The solution of the pencil `K v = λ M v` for this metric `K` and the
    /// positive-definite mass metric `m`, both `⟨D, 1/D⟩`: with `M = L Lᴴ`
    /// it reduces to the symmetric problem `C = L⁻¹ K L⁻ᴴ` and maps its
    /// eigenvectors back by `L⁻ᴴ`. `None` when `m` has no Cholesky factor or
    /// the factor is singular.
    pub fn generalized_symmetric_eigen(self, m: &MixedUnitMatrix<T>) -> (r: Option<MetricGeneralizedEigen<T>>)
        requires
            self.wf(),
            m.wf(),
            self.units_operable(),
            spec_metric(self.rows(), self.cols()),
            m.rows() == self.rows(),
            m.cols() == self.cols(),
            self.rows().len() > 0,
        ensures
            r matches Some(e) ==> e.wf() && e.eigenvectors.rows() == self.cols(),
    {
        let l = match na_cholesky_l(&m.inner) {
            Some(l) => l,
            None => return None,
        };
        let l_inv = match na_try_inverse(&l) {
            Some(x) => x,
            None => return None,
        };
        let l_inv_adj = na_adjoint(&l_inv);
        let c = na_mul(&na_mul(&l_inv, &self.inner), &l_inv_adj);
        let (vecs, vals) = match na_symmetric_eigen(&c, ITERATION_LIMIT) {
            Some(f) => f,
            None => return None,
        };
        let v = na_mul(&l_inv_adj, &vecs);
        let n = self.row_dims.len();
        Some(MetricGeneralizedEigen {
            eigenvalues: UniformUnitMatrix { inner: vals, unit: Unit::dimensionless() },
            eigenvectors: MixedUnitMatrix { inner: v, row_dims: self.col_dims, col_dims: ones(n) },
        })
    }

    /// The spectral decomposition `M = V Λ Vᴴ` of a non-empty real symmetric
    /// metric `⟨D, 1/D⟩`: `V` is `⟨D, [1 … 1]⟩` and `Λ` a dimensionless
    /// column (`None` when the backend's iteration does not converge within
    /// [`ITERATION_LIMIT`] sweeps).
    pub fn symmetric_eigen(&self) -> (r: Option<SymmetricEigen<T>>)
        requires
            self.wf(),
            self.units_operable(),
            spec_metric(self.rows(), self.cols()),
            self.rows().len() > 0,
        ensures
            r matches Some(e) ==> e.wf() && e.eigenvectors.rows() == self.rows(),
    {
        let (vecs, vals) = match na_symmetric_eigen(&self.inner, ITERATION_LIMIT) {
            Some(f) => f,
            None => return None,
        };
        let n = self.row_dims.len();
        Some(SymmetricEigen {
            eigenvectors: MixedUnitMatrix { inner: vecs, row_dims: copy_list(&self.row_dims), col_dims: ones(n) },
            eigenvalues: UniformUnitMatrix { inner: vals, unit: Unit::dimensionless() },
        })
    }

    /// The tridiagonalization `M = Q T Qᴴ` of a non-empty real symmetric
    /// metric `⟨D, 1/D⟩`: `Q` is `⟨D, [1 … 1]⟩` and `T` the dimensionless
    /// symmetric tridiagonal matrix of the diagonal and off-diagonal nalgebra
    /// returns.
    pub fn symmetric_tridiagonalize(&self) -> (r: SymmetricTridiagonal<T>)
        requires
            self.wf(),
            self.units_operable(),
            spec_metric(self.rows(), self.cols()),
            self.rows().len() > 0,
        ensures
            r.wf(),
            r.q.rows() == self.rows(),
    {
        let (q, d, o) = na_symmetric_tridiagonalize(&self.inner);
        proof { lemma_square_fits(self.inner); }
        let t = tridiagonal(d, &o);
        let (q, t) = self.metric_factor(q, t);
        SymmetricTridiagonal { q, t }
    }

    /// The factorization `M = U D Uᴴ` of a non-empty real symmetric metric
    /// `⟨D, 1/D⟩` (`None` on a zero pivot): `U` is `⟨D, [1 … 1]⟩` and `D` a
    /// dimensionless column.
    pub fn udu(self) -> (r: Option<UDU<T>>)
        requires
            self.wf(),
            self.units_operable(),
            spec_metric(self.rows(), self.cols()),
            self.rows().len() > 0,
        ensures
            r matches Some(f) ==> f.wf() && f.u.rows() == self.rows(),
    {
        match na_udu(&self.inner) {
            Some((u, d)) => {
                let n = self.row_dims.len();
                Some(UDU {
                    u: MixedUnitMatrix { inner: u, row_dims: self.row_dims, col_dims: ones(n) },
                    d: UniformUnitMatrix { inner: d, unit: Unit::dimensionless() },
                })
            },
            None => None,
        }
    }
}

impl<T: nalgebra::RealField + Copy> MixedUnitMatrix<T> {
    /// The Schur form `M = Q T Qᴴ` of a non-empty metric `⟨D, 1/D⟩`: `Q` is
    /// `⟨D, [1 … 1]⟩` and `T` dimensionless (`None` when the backend's
    /// iteration does not converge within [`ITERATION_LIMIT`] sweeps).
    pub fn schur(&self) -> (r: Option<Schur<T>>)
        requires
            self.wf(),
            self.units_operable(),
            spec_metric(self.rows(), self.cols()),
            self.rows().len() > 0,
        ensures
            r matches Some(f) ==> f.wf() && f.q.rows() == self.rows(),
    {
        match na_schur(&self.inner, ITERATION_LIMIT) {
            Some((q, t)) => {
                let (q, t) = self.metric_factor(q, t);
                Some(Schur { q, t })
            },
            None => None,
        }
    }
}

} // verus!
