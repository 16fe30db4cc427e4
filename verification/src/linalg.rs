//! Linear algebra on mixed-unit matrices: solves, inverses, determinants,
//! LU factorizations and spectra.
//!
//! A square `A : ⟨rows, cols⟩` maps column-unit vectors to row-unit vectors,
//! so solving `A x = b` for `b : ⟨rows, bcols⟩` gives `x : ⟨cols, bcols⟩`,
//! and the inverse is `⟨cols, rows⟩`. Whether a system is solvable depends on
//! the numbers and is decided by the backend; the unit lists of every result
//! are decided and proved here.

use vstd::prelude::*;
use crate::backend::{
    na_complex_eigenvalues, na_determinant, na_eigenvalues, na_full_piv_determinant,
    na_full_piv_solve, na_full_piv_try_inverse, na_lu_determinant, na_lu_factors, na_lu_solve,
    na_lu_try_inverse, na_mul, na_solve_lower, na_solve_upper, na_try_inverse, Complex,
};
use crate::dims::{
    copy_list, list_operable, product, product_defined, spec_is_uniform, spec_product,
    uniform_diag,
};
use crate::matrix::MixedUnitMatrix;
use crate::quantity::Quantity;
use crate::raw::RawMatrix;
use crate::relations::{
    small_det_rel, small_inverse_rel, small_lower_solve_rel, small_solve_rel, small_upper_solve_rel,
};
use crate::uniform::UniformUnitMatrix;
use crate::unit::{exps_within, spec_div, Unit};

verus! {

/// The most sweeps an iterative decomposition (Schur, symmetric eigen,
/// singular values) may take before it is reported as not converging.
/// nalgebra's own forms iterate without a bound, and on non-finite entries
/// they may never return; the library bounds them instead, so a spectrum or
/// decomposition nalgebra would still be iterating on (or would find only
/// after more sweeps) comes back as `None`. Every operation that can fail
/// this way says so and returns an `Option` (or an error) for it.
pub const ITERATION_LIMIT: usize = 1000000;

/// Attaches unit lists to a result the backend may have declined to produce:
/// `None` stays `None`, and storage becomes the matrix `⟨rows, cols⟩`.
pub fn with_units<T>(raw: Option<RawMatrix<T>>, rows: Vec<Unit>, cols: Vec<Unit>) -> (r: Option<MixedUnitMatrix<T>>)
    ensures
        r is Some <==> raw is Some,
        r matches Some(m) ==> raw == Some(m.inner) && m.rows() == rows@ && m.cols() == cols@,
{
    match raw {
        Some(inner) => Some(MixedUnitMatrix { inner, row_dims: rows, col_dims: cols }),
        None => None,
    }
}

/// The unit of a determinant of `⟨rows, cols⟩`: the product of the row units
/// over the product of the column units.
pub open spec fn det_unit(rows: Seq<Unit>, cols: Seq<Unit>) -> Seq<int> {
    spec_div(spec_product(rows), spec_product(cols))
}

/// The determinant's unit can be formed within the unit algebra's range.
pub open spec fn det_unit_defined(rows: Seq<Unit>, cols: Seq<Unit>) -> bool {
    &&& product_defined(rows)
    &&& product_defined(cols)
    &&& exps_within(spec_product(rows), 200)
    &&& exps_within(spec_product(cols), 200)
}

/// The unit `∏ rows / ∏ cols` of a determinant.
pub fn determinant_unit(rows: &Vec<Unit>, cols: &Vec<Unit>) -> (r: Unit)
    requires
        det_unit_defined(rows@, cols@),
    ensures
        r.exps() == det_unit(rows@, cols@),
{
    let pr = product(rows);
    let pc = product(cols);
    pr.div(&pc)
}

/// A partial-pivoting LU factorization `A = Pᵀ L U` of a square matrix whose
/// row units are a single repeated unit: `p` and `l` are `⟨rows, rows⟩`, `u`
/// is `⟨rows, cols⟩`.
pub struct LU<T> {
    pub p: MixedUnitMatrix<T>,
    pub l: MixedUnitMatrix<T>,
    pub u: MixedUnitMatrix<T>,
}

impl<T> LU<T> {
    /// The three factors are well formed, square of one size, and carry the
    /// unit lists of the factorization.
    pub open spec fn wf(&self) -> bool {
        &&& self.p.wf()
        &&& self.l.wf()
        &&& self.u.wf()
        &&& self.p.rows() == self.u.rows()
        &&& self.p.cols() == self.u.rows()
        &&& self.l.rows() == self.u.rows()
        &&& self.l.cols() == self.u.rows()
        &&& self.u.rows().len() == self.u.cols().len()
    }
}

impl<T: nalgebra::ComplexField + Copy> LU<T> {
    /// Multiplies the factors back together, `Pᵀ L U : ⟨rows, cols⟩`.
    pub fn recompose(&self) -> (r: MixedUnitMatrix<T>)
        requires
            self.wf(),
        ensures
            r.wf(),
            r.rows() == self.u.rows(),
            r.cols() == self.u.cols(),
    {
        let pt = self.p.inner.transpose();
        let m = na_mul(&na_mul(&pt, &self.l.inner), &self.u.inner);
        MixedUnitMatrix { inner: m, row_dims: copy_list(&self.u.row_dims), col_dims: copy_list(&self.u.col_dims) }
    }

    /// Solves `A x = b` through the factors (`L y = P b`, then `U x = y`);
    /// `None` when a triangular solve meets a zero pivot. A solution is
    /// `⟨cols, b.cols⟩`.
    pub fn solve(&self, b: &MixedUnitMatrix<T>) -> (r: Option<MixedUnitMatrix<T>>)
        requires
            self.wf(),
            b.wf(),
            b.rows() == self.u.rows(),
        ensures
            r matches Some(x) ==> x.wf() && x.rows() == self.u.cols() && x.cols() == b.cols(),
    {
        let pb = na_mul(&self.p.inner, &b.inner);
        let y = match na_solve_lower(&self.l.inner, &pb) {
            Some(y) => y,
            None => return None,
        };
        let x = na_solve_upper(&self.u.inner, &y);
        with_units(x, copy_list(&self.u.col_dims), copy_list(&b.col_dims))
    }
}

/// A partial-pivoting LU factorization kept opaque: its factors would need
/// unit lists that a mixed matrix does not have, so only solves, inverses and
/// the determinant are offered. It holds the factored matrix.
pub struct OpaqueLU<T> {
    pub factored: RawMatrix<T>,
    pub row_dims: Vec<Unit>,
    pub col_dims: Vec<Unit>,
}

/// A full-pivoting LU factorization kept opaque, like [`OpaqueLU`].
pub struct OpaqueFullPivLU<T> {
    pub factored: RawMatrix<T>,
    pub row_dims: Vec<Unit>,
    pub col_dims: Vec<Unit>,
}

impl<T> OpaqueLU<T> {
    /// The factored matrix is square and matches the unit lists.
    pub open spec fn wf(&self) -> bool {
        &&& self.factored.wf()
        &&& self.factored.nrows == self.row_dims.len()
        &&& self.factored.ncols == self.col_dims.len()
        &&& self.row_dims.len() == self.col_dims.len()
    }

    /// The factored matrix.
    pub fn nalgebra(&self) -> (r: &RawMatrix<T>)
        ensures
            *r == self.factored,
    {
        &self.factored
    }

    /// Consumes the factorization, returning the factored matrix.
    pub fn into_nalgebra(self) -> (r: RawMatrix<T>)
        ensures
            r == self.factored,
    {
        self.factored
    }
}

impl<T> OpaqueFullPivLU<T> {
    /// The factored matrix is square and matches the unit lists.
    pub open spec fn wf(&self) -> bool {
        &&& self.factored.wf()
        &&& self.factored.nrows == self.row_dims.len()
        &&& self.factored.ncols == self.col_dims.len()
        &&& self.row_dims.len() == self.col_dims.len()
    }

    /// The factored matrix.
    pub fn nalgebra(&self) -> (r: &RawMatrix<T>)
        ensures
            *r == self.factored,
    {
        &self.factored
    }

    /// Consumes the factorization, returning the factored matrix.
    pub fn into_nalgebra(self) -> (r: RawMatrix<T>)
        ensures
            r == self.factored,
    {
        self.factored
    }
}

impl<T: nalgebra::ComplexField + Copy> OpaqueLU<T> {
    /// Solves `A x = b` (`None` when `A` is singular); a solution is
    /// `⟨cols, b.cols⟩`.
    pub fn solve(&self, b: &MixedUnitMatrix<T>) -> (r: Option<MixedUnitMatrix<T>>)
        requires
            self.wf(),
            b.wf(),
            b.rows() == self.row_dims@,
        ensures
            r matches Some(x) ==> x.wf() && x.rows() == self.col_dims@ && x.cols() == b.cols()
                && small_solve_rel(self.factored, b.inner, x.inner),
    {
        let x = na_lu_solve(&self.factored, &b.inner);
        with_units(x, copy_list(&self.col_dims), copy_list(&b.col_dims))
    }

    /// The inverse `⟨cols, rows⟩` (`None` when `A` is singular).
    pub fn try_inverse(&self) -> (r: Option<MixedUnitMatrix<T>>)
        requires
            self.wf(),
        ensures
            r matches Some(x) ==> x.wf() && x.rows() == self.col_dims@ && x.cols() == self.row_dims@,
    {
        let x = na_lu_try_inverse(&self.factored);
        with_units(x, copy_list(&self.col_dims), copy_list(&self.row_dims))
    }

    /// The determinant, a quantity of unit `∏ rows / ∏ cols`.
    pub fn determinant(&self) -> (r: Quantity<T>)
        requires
            self.wf(),
            det_unit_defined(self.row_dims@, self.col_dims@),
        ensures
            r.unit.exps() == det_unit(self.row_dims@, self.col_dims@),
    {
        Quantity { value: na_lu_determinant(&self.factored), unit: determinant_unit(&self.row_dims, &self.col_dims) }
    }
}

impl<T: nalgebra::ComplexField + Copy> OpaqueFullPivLU<T> {
    /// Solves `A x = b` for a non-empty `A` (`None` when `A` is singular); a solution is
    /// `⟨cols, b.cols⟩`.
    pub fn solve(&self, b: &MixedUnitMatrix<T>) -> (r: Option<MixedUnitMatrix<T>>)
        requires
            self.wf(),
            self.row_dims.len() > 0,
            b.wf(),
            b.rows() == self.row_dims@,
        ensures
            r matches Some(x) ==> x.wf() && x.rows() == self.col_dims@ && x.cols() == b.cols(),
    {
        let x = na_full_piv_solve(&self.factored, &b.inner);
        with_units(x, copy_list(&self.col_dims), copy_list(&b.col_dims))
    }

    /// The inverse `⟨cols, rows⟩` (`None` when `A` is singular).
    pub fn try_inverse(&self) -> (r: Option<MixedUnitMatrix<T>>)
        requires
            self.wf(),
            self.row_dims.len() > 0,
        ensures
            r matches Some(x) ==> x.wf() && x.rows() == self.col_dims@ && x.cols() == self.row_dims@,
    {
        let x = na_full_piv_try_inverse(&self.factored);
        with_units(x, copy_list(&self.col_dims), copy_list(&self.row_dims))
    }

    /// The determinant, a quantity of unit `∏ rows / ∏ cols`.
    pub fn determinant(&self) -> (r: Quantity<T>)
        requires
            self.wf(),
            self.row_dims.len() > 0,
            det_unit_defined(self.row_dims@, self.col_dims@),
        ensures
            r.unit.exps() == det_unit(self.row_dims@, self.col_dims@),
    {
        Quantity { value: na_full_piv_determinant(&self.factored), unit: determinant_unit(&self.row_dims, &self.col_dims) }
    }
}

impl<T: nalgebra::ComplexField + Copy> MixedUnitMatrix<T> {
    /// The LU factorization `A = Pᵀ L U` of a square matrix whose row units
    /// are one repeated unit (so that the row operations of the elimination
    /// combine entries of equal unit).
    pub fn lu(&self) -> (r: LU<T>)
        requires
            self.wf(),
            self.rows().len() == self.cols().len(),
            self.rows().len() > 0,
            spec_is_uniform(self.rows()),
        ensures
            r.wf(),
            r.u.rows() == self.rows(),
            r.u.cols() == self.cols(),
    {
        let (p, l, u) = na_lu_factors(&self.inner);
        LU {
            p: MixedUnitMatrix { inner: p, row_dims: copy_list(&self.row_dims), col_dims: copy_list(&self.row_dims) },
            l: MixedUnitMatrix { inner: l, row_dims: copy_list(&self.row_dims), col_dims: copy_list(&self.row_dims) },
            u: MixedUnitMatrix { inner: u, row_dims: copy_list(&self.row_dims), col_dims: copy_list(&self.col_dims) },
        }
    }

    /// The partial-pivoting LU factorization of a square matrix, kept opaque.
    pub fn lu_opaque(&self) -> (r: OpaqueLU<T>)
        requires
            self.wf(),
            self.rows().len() == self.cols().len(),
        ensures
            r.wf(),
            r.factored.data@ == self.inner.data@,
            r.row_dims@ == self.rows(),
            r.col_dims@ == self.cols(),
    {
        OpaqueLU { factored: self.inner.copy(), row_dims: copy_list(&self.row_dims), col_dims: copy_list(&self.col_dims) }
    }

    /// The full-pivoting LU factorization of a square matrix, kept opaque.
    pub fn full_piv_lu_opaque(&self) -> (r: OpaqueFullPivLU<T>)
        requires
            self.wf(),
            self.rows().len() == self.cols().len(),
        ensures
            r.wf(),
            r.factored.data@ == self.inner.data@,
            r.row_dims@ == self.rows(),
            r.col_dims@ == self.cols(),
    {
        OpaqueFullPivLU { factored: self.inner.copy(), row_dims: copy_list(&self.row_dims), col_dims: copy_list(&self.col_dims) }
    }

    /// Solves `A x = b` for a square `A` by LU (`None` when `A` is
    /// singular); a solution is `⟨cols, b.cols⟩`.
    pub fn solve(self, b: &MixedUnitMatrix<T>) -> (r: Option<MixedUnitMatrix<T>>)
        requires
            self.wf(),
            b.wf(),
            self.rows().len() == self.cols().len(),
            b.rows() == self.rows(),
        ensures
            r matches Some(x) ==> x.wf() && x.rows() == self.cols() && x.cols() == b.cols()
                && small_solve_rel(self.inner, b.inner, x.inner),
    {
        let x = na_lu_solve(&self.inner, &b.inner);
        with_units(x, self.col_dims, copy_list(&b.col_dims))
    }

    /// Solves `A x = b` using only the lower triangle of the square `A`
    /// (`None` on a zero diagonal entry); a solution is `⟨cols, b.cols⟩`.
    pub fn solve_lower_triangular(&self, b: &MixedUnitMatrix<T>) -> (r: Option<MixedUnitMatrix<T>>)
        requires
            self.wf(),
            b.wf(),
            self.rows().len() == self.cols().len(),
            b.rows() == self.rows(),
        ensures
            r matches Some(x) ==> x.wf() && x.rows() == self.cols() && x.cols() == b.cols()
                && small_lower_solve_rel(self.inner, b.inner, x.inner),
    {
        let x = na_solve_lower(&self.inner, &b.inner);
        with_units(x, copy_list(&self.col_dims), copy_list(&b.col_dims))
    }

    /// Solves `A x = b` using only the upper triangle of the square `A`
    /// (`None` on a zero diagonal entry); a solution is `⟨cols, b.cols⟩`.
    pub fn solve_upper_triangular(&self, b: &MixedUnitMatrix<T>) -> (r: Option<MixedUnitMatrix<T>>)
        requires
            self.wf(),
            b.wf(),
            self.rows().len() == self.cols().len(),
            b.rows() == self.rows(),
        ensures
            r matches Some(x) ==> x.wf() && x.rows() == self.cols() && x.cols() == b.cols()
                && small_upper_solve_rel(self.inner, b.inner, x.inner),
    {
        let x = na_solve_upper(&self.inner, &b.inner);
        with_units(x, copy_list(&self.col_dims), copy_list(&b.col_dims))
    }

    /// The inverse `⟨cols, rows⟩` of a square matrix (`None` when singular).
    pub fn try_inverse(self) -> (r: Option<MixedUnitMatrix<T>>)
        requires
            self.wf(),
            self.rows().len() == self.cols().len(),
        ensures
            r matches Some(x) ==> x.wf() && x.rows() == self.cols() && x.cols() == self.rows()
                && small_inverse_rel(self.inner, x.inner),
    {
        let x = na_try_inverse(&self.inner);
        with_units(x, self.col_dims, self.row_dims)
    }

    /// The determinant of a square matrix, a quantity of unit
    /// `∏ rows / ∏ cols` (every term of its expansion has that unit).
    pub fn determinant(&self) -> (r: Quantity<T>)
        requires
            self.wf(),
            self.rows().len() == self.cols().len(),
            det_unit_defined(self.rows(), self.cols()),
        ensures
            r.unit.exps() == det_unit(self.rows(), self.cols()),
            small_det_rel(self.inner, r.value),
    {
        Quantity { value: na_determinant(&self.inner), unit: determinant_unit(&self.row_dims, &self.col_dims) }
    }

    /// The shared unit of the diagonal entries.
    fn diag_unit(&self) -> (r: Unit)
        requires
            self.wf(),
            self.units_operable(),
            self.rows().len() == self.cols().len(),
            self.rows().len() > 0,
            forall|i: int| 0 <= i < self.rows().len() ==> #[trigger] self.unit_at(i, i) == self.unit_at(0, 0),
        ensures
            r.exps() == self.unit_at(0, 0),
    {
        proof {
            assert forall|i: int| 0 <= i < self.rows().len() implies spec_div(#[trigger] self.rows()[i].exps(), self.cols()[i].exps())
                == spec_div(self.rows()[0].exps(), self.cols()[0].exps()) by {
                assert(self.unit_at(i, i) == self.unit_at(0, 0));
            }
        }
        match uniform_diag(&self.row_dims, &self.col_dims) {
            Some(u) => u,
            None => self.row_dims[0].div(&self.col_dims[0]),
        }
    }
}

impl<T: nalgebra::RealField + Copy> MixedUnitMatrix<T> {
    /// The complex eigenvalues of a real square matrix whose diagonal entries
    /// share one unit, as a uniform column of that unit (`None` when the
    /// backend's iteration does not converge within [`ITERATION_LIMIT`]
    /// sweeps).
    pub fn complex_eigenvalues(&self) -> (r: Option<UniformUnitMatrix<Complex<T>>>)
        requires
            self.wf(),
            self.units_operable(),
            self.rows().len() == self.cols().len(),
            self.rows().len() > 0,
            forall|i: int| 0 <= i < self.rows().len() ==> #[trigger] self.unit_at(i, i) == self.unit_at(0, 0),
        ensures
            r matches Some(v) ==> v.wf() && v.inner.nrows == self.rows().len() && v.inner.ncols == 1
                && v.unit.exps() == self.unit_at(0, 0),
    {
        let u = self.diag_unit();
        match na_complex_eigenvalues(&self.inner, ITERATION_LIMIT) {
            Some(inner) => Some(UniformUnitMatrix { inner, unit: u }),
            None => None,
        }
    }
}

impl<T: nalgebra::RealField + Copy> MixedUnitMatrix<T> {
    /// The eigenvalues of a square matrix whose diagonal entries share one
    /// unit, as a uniform column of that unit (`None` when the backend finds
    /// no real spectrum or its iteration does not converge within
    /// [`ITERATION_LIMIT`] sweeps).
    pub fn eigenvalues(&self) -> (r: Option<UniformUnitMatrix<T>>)
        requires
            self.wf(),
            self.units_operable(),
            self.rows().len() == self.cols().len(),
            self.rows().len() > 0,
            forall|i: int| 0 <= i < self.rows().len() ==> #[trigger] self.unit_at(i, i) == self.unit_at(0, 0),
        ensures
            r matches Some(v) ==> v.wf() && v.inner.nrows == self.rows().len() && v.inner.ncols == 1
                && v.unit.exps() == self.unit_at(0, 0),
    {
        let u = self.diag_unit();
        match na_eigenvalues(&self.inner, ITERATION_LIMIT) {
            Some(inner) => Some(UniformUnitMatrix { inner, unit: u }),
            None => None,
        }
    }
}

} // verus!
