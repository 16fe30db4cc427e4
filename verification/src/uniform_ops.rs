//! Arithmetic and linear algebra on uniform-unit matrices.
//!
//! Every result carries one unit, computed here from the operands' units:
//! products multiply them, quotients and solves divide them, inverses
//! reciprocate, determinants and powers raise to the matrix size or exponent.

use vstd::prelude::*;
use crate::linalg::ITERATION_LIMIT;
use crate::backend::{
    na_ad_mul, na_add, na_adjoint, na_column_mean, na_column_sum, na_complex_eigenvalues,
    na_component_div, na_component_mul, na_determinant, na_div_scalar, na_eigenvalues,
    na_full_piv_factors, na_inf, na_lerp, na_lu_factors, na_lu_solve, na_mul, na_mul_scalar,
    na_neg, na_one, na_pow, na_row_mean, na_row_sum, na_scale, na_solve_lower, na_solve_upper,
    na_sub, na_sup, na_tr_mul, na_trace, na_try_inverse, na_unscale, na_zero, Complex,
};
use crate::dims::{product_defined, spec_product};
use crate::matrix::{diagonal_pattern, identity_pattern, triangle_pattern};
use crate::quantity::Quantity;
use crate::raw::RawMatrix;
use crate::relations::{is_product, product_in_order, small_det_rel, small_inverse_rel, small_lower_solve_rel, small_solve_rel,
    small_upper_solve_rel,
};
use crate::uniform::{repeated, unit_pow, with_unit, UniformUnitMatrix};
use crate::unit::{spec_div, spec_inv, spec_mul, spec_one, Unit};

verus! {

/// The factors `A = Pᵀ L U` of a uniform square matrix of unit `U`: `l` and
/// `p` are dimensionless and `u` carries `U`.
pub struct UniformLU<T> {
    pub l: UniformUnitMatrix<T>,
    pub u: UniformUnitMatrix<T>,
    pub p: UniformUnitMatrix<T>,
}

/// The factors `A = Pᵀ L U Qᵀ` of a uniform square matrix of unit `U`: `l`,
/// `p` and `q` are dimensionless and `u` carries `U`.
pub struct UniformFullPivLU<T> {
    pub l: UniformUnitMatrix<T>,
    pub u: UniformUnitMatrix<T>,
    pub p: UniformUnitMatrix<T>,
    pub q: UniformUnitMatrix<T>,
}

/// `m` is a well-formed `n × n` matrix.
pub open spec fn square_of<T>(m: UniformUnitMatrix<T>, n: int) -> bool {
    &&& m.wf()
    &&& m.inner.nrows == n
    &&& m.inner.ncols == n
}

impl<T> UniformLU<T> {
    /// All factors are `n × n` for one `n`; `l` and `p` are dimensionless.
    pub open spec fn wf(&self) -> bool {
        &&& square_of(self.l, self.u.inner.nrows as int)
        &&& square_of(self.u, self.u.inner.nrows as int)
        &&& square_of(self.p, self.u.inner.nrows as int)
        &&& self.l.unit.exps() == spec_one()
        &&& self.p.unit.exps() == spec_one()
    }
}

impl<T> UniformFullPivLU<T> {
    /// All factors are `n × n` for one `n`; `l`, `p` and `q` are
    /// dimensionless.
    pub open spec fn wf(&self) -> bool {
        &&& square_of(self.l, self.u.inner.nrows as int)
        &&& square_of(self.u, self.u.inner.nrows as int)
        &&& square_of(self.p, self.u.inner.nrows as int)
        &&& square_of(self.q, self.u.inner.nrows as int)
        &&& self.l.unit.exps() == spec_one()
        &&& self.p.unit.exps() == spec_one()
        &&& self.q.unit.exps() == spec_one()
    }
}

impl<T: nalgebra::ComplexField + Copy> UniformLU<T> {
    /// Multiplies the factors back together, `Pᵀ L U`, of the unit of `u`.
    pub fn recompose(&self) -> (r: UniformUnitMatrix<T>)
        requires
            self.wf(),
        ensures
            square_of(r, self.u.inner.nrows as int),
            r.unit == self.u.unit,
    {
        let pt = self.p.inner.transpose();
        let m = na_mul(&na_mul(&pt, &self.l.inner), &self.u.inner);
        UniformUnitMatrix { inner: m, unit: self.u.unit }
    }

    /// Solves `A x = b` through the factors; a solution has the unit
    /// `b.unit / U` (`None` on a zero pivot).
    pub fn solve(&self, b: &UniformUnitMatrix<T>) -> (r: Option<UniformUnitMatrix<T>>)
        requires
            self.wf(),
            b.wf(),
            b.inner.nrows == self.u.inner.nrows,
            b.unit.operable(),
            self.u.unit.operable(),
        ensures
            r matches Some(x) ==> x.wf() && x.inner.nrows == b.inner.nrows && x.inner.ncols == b.inner.ncols
                && x.unit.exps() == spec_div(b.unit.exps(), self.u.unit.exps()),
    {
        let pb = na_mul(&self.p.inner, &b.inner);
        let y = match na_solve_lower(&self.l.inner, &pb) {
            Some(y) => y,
            None => return None,
        };
        let x = na_solve_upper(&self.u.inner, &y);
        with_unit(x, b.unit.div(&self.u.unit))
    }
}

impl<T: nalgebra::ComplexField + Copy> UniformFullPivLU<T> {
    /// Multiplies the factors back together, `Pᵀ L U Qᵀ`, of the unit of `u`.
    pub fn recompose(&self) -> (r: UniformUnitMatrix<T>)
        requires
            self.wf(),
        ensures
            square_of(r, self.u.inner.nrows as int),
            r.unit == self.u.unit,
    {
        let pt = self.p.inner.transpose();
        let qt = self.q.inner.transpose();
        let m = na_mul(&na_mul(&na_mul(&pt, &self.l.inner), &self.u.inner), &qt);
        UniformUnitMatrix { inner: m, unit: self.u.unit }
    }

    /// Solves `A x = b` through the factors (`L y = P b`, `U z = y`,
    /// `x = Q z`); a solution has the unit `b.unit / U` (`None` on a zero
    /// pivot).
    pub fn solve(&self, b: &UniformUnitMatrix<T>) -> (r: Option<UniformUnitMatrix<T>>)
        requires
            self.wf(),
            b.wf(),
            b.inner.nrows == self.u.inner.nrows,
            b.unit.operable(),
            self.u.unit.operable(),
        ensures
            r matches Some(x) ==> x.wf() && x.inner.nrows == b.inner.nrows && x.inner.ncols == b.inner.ncols
                && x.unit.exps() == spec_div(b.unit.exps(), self.u.unit.exps()),
    {
        let pb = na_mul(&self.p.inner, &b.inner);
        let y = match na_solve_lower(&self.l.inner, &pb) {
            Some(y) => y,
            None => return None,
        };
        let z = match na_solve_upper(&self.u.inner, &y) {
            Some(z) => z,
            None => return None,
        };
        let x = na_mul(&self.q.inner, &z);
        Some(UniformUnitMatrix { inner: x, unit: b.unit.div(&self.u.unit) })
    }
}

impl<T: nalgebra::ComplexField + Copy> UniformUnitMatrix<T> {
    /// The dimensionless `n × n` identity.
    pub fn identity(n: usize) -> (r: Self)
        requires
            n * n <= usize::MAX,
        ensures
            square_of(r, n as int),
            r.unit.exps() == spec_one(),
            exists|z: T, o: T| #[trigger] identity_pattern(r.inner, z, o),
    {
        let z = na_zero();
        let o = na_one();
        let r = UniformUnitMatrix { inner: RawMatrix::identity(n, z, o), unit: Unit::dimensionless() };
        assert(identity_pattern(r.inner, z, o));
        r
    }

    /// The square matrix with the column `diag` on its diagonal and zero
    /// elsewhere, of `diag`'s unit.
    pub fn from_diagonal(diag: &Self) -> (r: Self)
        requires
            diag.wf(),
            diag.inner.ncols == 1,
            diag.inner.nrows * diag.inner.nrows <= usize::MAX,
        ensures
            square_of(r, diag.inner.nrows as int),
            r.unit == diag.unit,
            exists|z: T| #[trigger] diagonal_pattern(r.inner, diag.inner, z),
    {
        let z = na_zero();
        let r = UniformUnitMatrix { inner: RawMatrix::from_diagonal(&diag.inner, z), unit: diag.unit };
        assert(diagonal_pattern(r.inner, diag.inner, z));
        r
    }

    /// The upper triangle (diagonal included), zero below; the unit is kept.
    pub fn upper_triangle(&self) -> (r: Self)
        requires
            self.wf(),
        ensures
            r.wf(),
            r.unit == self.unit,
            r.inner.nrows == self.inner.nrows,
            r.inner.ncols == self.inner.ncols,
            exists|z: T| #[trigger] triangle_pattern(r.inner, self.inner, z, true),
    {
        let z = na_zero();
        let r = UniformUnitMatrix { inner: self.inner.upper_triangle(z), unit: self.unit };
        assert(triangle_pattern(r.inner, self.inner, z, true));
        r
    }

    /// The lower triangle (diagonal included), zero above; the unit is kept.
    pub fn lower_triangle(&self) -> (r: Self)
        requires
            self.wf(),
        ensures
            r.wf(),
            r.unit == self.unit,
            r.inner.nrows == self.inner.nrows,
            r.inner.ncols == self.inner.ncols,
            exists|z: T| #[trigger] triangle_pattern(r.inner, self.inner, z, false),
    {
        let z = na_zero();
        let r = UniformUnitMatrix { inner: self.inner.lower_triangle(z), unit: self.unit };
        assert(triangle_pattern(r.inner, self.inner, z, false));
        r
    }

    /// The matrix product; its unit is the product of the two units.
    pub fn mul(&self, rhs: &Self) -> (r: Self)
        requires
            self.wf(),
            rhs.wf(),
            self.inner.ncols == rhs.inner.nrows,
            self.unit.operable(),
            rhs.unit.operable(),
        ensures
            r.wf(),
            r.inner.nrows == self.inner.nrows,
            r.inner.ncols == rhs.inner.ncols,
            r.unit.exps() == spec_mul(self.unit.exps(), rhs.unit.exps()),
            product_in_order(self.inner.nrows as int, self.inner.ncols as int, rhs.inner.ncols as int)
                ==> is_product(self.inner, rhs.inner, r.inner),
    {
        UniformUnitMatrix { inner: na_mul(&self.inner, &rhs.inner), unit: self.unit.mul(&rhs.unit) }
    }

    /// The entry-wise sum of two matrices of one shape and unit.
    pub fn add(&self, rhs: &Self) -> (r: Self)
        requires
            self.wf(),
            rhs.wf(),
            self.inner.nrows == rhs.inner.nrows,
            self.inner.ncols == rhs.inner.ncols,
            self.unit == rhs.unit,
        ensures
            r.wf(),
            r.inner.nrows == self.inner.nrows,
            r.inner.ncols == self.inner.ncols,
            r.unit == self.unit,
            forall|i: int, j: int| 0 <= i < self.inner.nrows && 0 <= j < self.inner.ncols ==>
                vstd::std_specs::ops::add_ensures::<T>(self.inner.at(i, j), rhs.inner.at(i, j), #[trigger] r.inner.at(i, j)),
    {
        UniformUnitMatrix { inner: na_add(&self.inner, &rhs.inner), unit: self.unit }
    }

    /// The entry-wise difference of two matrices of one shape and unit.
    pub fn sub(&self, rhs: &Self) -> (r: Self)
        requires
            self.wf(),
            rhs.wf(),
            self.inner.nrows == rhs.inner.nrows,
            self.inner.ncols == rhs.inner.ncols,
            self.unit == rhs.unit,
        ensures
            r.wf(),
            r.inner.nrows == self.inner.nrows,
            r.inner.ncols == self.inner.ncols,
            r.unit == self.unit,
            forall|i: int, j: int| 0 <= i < self.inner.nrows && 0 <= j < self.inner.ncols ==>
                vstd::std_specs::ops::sub_ensures::<T>(self.inner.at(i, j), rhs.inner.at(i, j), #[trigger] r.inner.at(i, j)),
    {
        UniformUnitMatrix { inner: na_sub(&self.inner, &rhs.inner), unit: self.unit }
    }

    /// In-place [`add`](Self::add).
    pub fn add_assign(&mut self, rhs: &Self)
        requires
            old(self).wf(),
            rhs.wf(),
            old(self).inner.nrows == rhs.inner.nrows,
            old(self).inner.ncols == rhs.inner.ncols,
            old(self).unit == rhs.unit,
        ensures
            final(self).wf(),
            final(self).inner.nrows == old(self).inner.nrows,
            final(self).inner.ncols == old(self).inner.ncols,
            final(self).unit == old(self).unit,
            forall|i: int, j: int| 0 <= i < old(self).inner.nrows && 0 <= j < old(self).inner.ncols ==>
                vstd::std_specs::ops::add_ensures::<T>(old(self).inner.at(i, j), rhs.inner.at(i, j), #[trigger] final(self).inner.at(i, j)),
    {
        self.inner = na_add(&self.inner, &rhs.inner);
    }

    /// In-place [`sub`](Self::sub).
    pub fn sub_assign(&mut self, rhs: &Self)
        requires
            old(self).wf(),
            rhs.wf(),
            old(self).inner.nrows == rhs.inner.nrows,
            old(self).inner.ncols == rhs.inner.ncols,
            old(self).unit == rhs.unit,
        ensures
            final(self).wf(),
            final(self).inner.nrows == old(self).inner.nrows,
            final(self).inner.ncols == old(self).inner.ncols,
            final(self).unit == old(self).unit,
            forall|i: int, j: int| 0 <= i < old(self).inner.nrows && 0 <= j < old(self).inner.ncols ==>
                vstd::std_specs::ops::sub_ensures::<T>(old(self).inner.at(i, j), rhs.inner.at(i, j), #[trigger] final(self).inner.at(i, j)),
    {
        self.inner = na_sub(&self.inner, &rhs.inner);
    }

    /// The negation; the unit is kept.
    pub fn neg(&self) -> (r: Self)
        requires
            self.wf(),
        ensures
            forall|i: int, j: int| 0 <= i < self.inner.nrows && 0 <= j < self.inner.ncols ==>
                vstd::std_specs::ops::neg_ensures::<T>(self.inner.at(i, j), #[trigger] r.inner.at(i, j)),
            r.wf(),
            r.inner.nrows == self.inner.nrows,
            r.inner.ncols == self.inner.ncols,
            r.unit == self.unit,
    {
        UniformUnitMatrix { inner: na_neg(&self.inner), unit: self.unit }
    }

    /// Every entry multiplied by the quantity `q`; the unit is multiplied by
    /// `q`'s.
    pub fn mul_quantity(&self, q: Quantity<T>) -> (r: Self)
        requires
            self.wf(),
            self.unit.operable(),
            q.unit.operable(),
        ensures
            forall|i: int, j: int| 0 <= i < self.inner.nrows && 0 <= j < self.inner.ncols ==>
                vstd::std_specs::ops::mul_ensures::<T>(self.inner.at(i, j), q.value, #[trigger] r.inner.at(i, j)),
            r.wf(),
            r.inner.nrows == self.inner.nrows,
            r.inner.ncols == self.inner.ncols,
            r.unit.exps() == spec_mul(self.unit.exps(), q.unit.exps()),
    {
        UniformUnitMatrix { inner: na_mul_scalar(&self.inner, q.value), unit: self.unit.mul(&q.unit) }
    }

    /// Every entry divided by the quantity `q`; the unit is divided by `q`'s.
    pub fn div_quantity(&self, q: Quantity<T>) -> (r: Self)
        requires
            self.wf(),
            self.unit.operable(),
            q.unit.operable(),
        ensures
            forall|i: int, j: int| 0 <= i < self.inner.nrows && 0 <= j < self.inner.ncols ==>
                vstd::std_specs::ops::div_ensures::<T>(self.inner.at(i, j), q.value, #[trigger] r.inner.at(i, j)),
            r.wf(),
            r.inner.nrows == self.inner.nrows,
            r.inner.ncols == self.inner.ncols,
            r.unit.exps() == spec_div(self.unit.exps(), q.unit.exps()),
    {
        UniformUnitMatrix { inner: na_div_scalar(&self.inner, q.value), unit: self.unit.div(&q.unit) }
    }

    /// The conjugate transpose; the unit is kept.
    pub fn adjoint(&self) -> (r: Self)
        requires
            self.wf(),
        ensures
            r.wf(),
            r.inner.nrows == self.inner.ncols,
            r.inner.ncols == self.inner.nrows,
            r.unit == self.unit,
    {
        UniformUnitMatrix { inner: na_adjoint(&self.inner), unit: self.unit }
    }

    /// `selfᵀ · rhs`; the unit is the product of the two units.
    pub fn tr_mul(&self, rhs: &Self) -> (r: Self)
        requires
            self.wf(),
            rhs.wf(),
            self.inner.nrows == rhs.inner.nrows,
            self.unit.operable(),
            rhs.unit.operable(),
        ensures
            r.wf(),
            r.inner.nrows == self.inner.ncols,
            r.inner.ncols == rhs.inner.ncols,
            r.unit.exps() == spec_mul(self.unit.exps(), rhs.unit.exps()),
    {
        UniformUnitMatrix { inner: na_tr_mul(&self.inner, &rhs.inner), unit: self.unit.mul(&rhs.unit) }
    }

    /// `selfᴴ · rhs`; the unit is the product of the two units.
    pub fn ad_mul(&self, rhs: &Self) -> (r: Self)
        requires
            self.wf(),
            rhs.wf(),
            self.inner.nrows == rhs.inner.nrows,
            self.unit.operable(),
            rhs.unit.operable(),
        ensures
            r.wf(),
            r.inner.nrows == self.inner.ncols,
            r.inner.ncols == rhs.inner.ncols,
            r.unit.exps() == spec_mul(self.unit.exps(), rhs.unit.exps()),
    {
        UniformUnitMatrix { inner: na_ad_mul(&self.inner, &rhs.inner), unit: self.unit.mul(&rhs.unit) }
    }

    /// The Hadamard product; the unit is the product of the two units.
    pub fn component_mul(&self, rhs: &Self) -> (r: Self)
        requires
            self.wf(),
            rhs.wf(),
            self.inner.nrows == rhs.inner.nrows,
            self.inner.ncols == rhs.inner.ncols,
            self.unit.operable(),
            rhs.unit.operable(),
        ensures
            forall|i: int, j: int| 0 <= i < self.inner.nrows && 0 <= j < self.inner.ncols ==>
                vstd::std_specs::ops::mul_ensures::<T>(self.inner.at(i, j), rhs.inner.at(i, j), #[trigger] r.inner.at(i, j)),
            r.wf(),
            r.inner.nrows == self.inner.nrows,
            r.inner.ncols == self.inner.ncols,
            r.unit.exps() == spec_mul(self.unit.exps(), rhs.unit.exps()),
    {
        UniformUnitMatrix { inner: na_component_mul(&self.inner, &rhs.inner), unit: self.unit.mul(&rhs.unit) }
    }

    /// The entry-wise quotient; the unit is the quotient of the two units.
    pub fn component_div(&self, rhs: &Self) -> (r: Self)
        requires
            self.wf(),
            rhs.wf(),
            self.inner.nrows == rhs.inner.nrows,
            self.inner.ncols == rhs.inner.ncols,
            self.unit.operable(),
            rhs.unit.operable(),
        ensures
            forall|i: int, j: int| 0 <= i < self.inner.nrows && 0 <= j < self.inner.ncols ==>
                vstd::std_specs::ops::div_ensures::<T>(self.inner.at(i, j), rhs.inner.at(i, j), #[trigger] r.inner.at(i, j)),
            r.wf(),
            r.inner.nrows == self.inner.nrows,
            r.inner.ncols == self.inner.ncols,
            r.unit.exps() == spec_div(self.unit.exps(), rhs.unit.exps()),
    {
        UniformUnitMatrix { inner: na_component_div(&self.inner, &rhs.inner), unit: self.unit.div(&rhs.unit) }
    }

    /// The trace of a square matrix, a quantity of the matrix's unit.
    pub fn trace(&self) -> (r: Quantity<T>)
        requires
            self.wf(),
            self.inner.nrows == self.inner.ncols,
        ensures
            r.unit == self.unit,
    {
        Quantity { value: na_trace(&self.inner), unit: self.unit }
    }

    /// The `1 × ncols` row of column sums, of the matrix's unit.
    pub fn row_sum(&self) -> (r: Self)
        requires
            self.wf(),
        ensures
            r.wf(),
            r.inner.nrows == 1,
            r.inner.ncols == self.inner.ncols,
            r.unit == self.unit,
    {
        UniformUnitMatrix { inner: na_row_sum(&self.inner), unit: self.unit }
    }

    /// The `nrows × 1` column of row sums, of the matrix's unit.
    pub fn column_sum(&self) -> (r: Self)
        requires
            self.wf(),
        ensures
            r.wf(),
            r.inner.nrows == self.inner.nrows,
            r.inner.ncols == 1,
            r.unit == self.unit,
    {
        UniformUnitMatrix { inner: na_column_sum(&self.inner), unit: self.unit }
    }

    /// The `1 × ncols` row of column means, of the matrix's unit.
    pub fn row_mean(&self) -> (r: Self)
        requires
            self.wf(),
        ensures
            r.wf(),
            r.inner.nrows == 1,
            r.inner.ncols == self.inner.ncols,
            r.unit == self.unit,
    {
        UniformUnitMatrix { inner: na_row_mean(&self.inner), unit: self.unit }
    }

    /// The `nrows × 1` column of row means, of the matrix's unit.
    pub fn column_mean(&self) -> (r: Self)
        requires
            self.wf(),
        ensures
            r.wf(),
            r.inner.nrows == self.inner.nrows,
            r.inner.ncols == 1,
            r.unit == self.unit,
    {
        UniformUnitMatrix { inner: na_column_mean(&self.inner), unit: self.unit }
    }

    /// The linear blend `self · (1 - t) + other · t` of two columns of one
    /// length and unit, of that unit.
    pub fn lerp(&self, other: &Self, t: T) -> (r: Self)
        requires
            self.wf(),
            other.wf(),
            self.inner.ncols == 1,
            other.inner.ncols == 1,
            self.inner.nrows == other.inner.nrows,
            self.unit == other.unit,
        ensures
            r.wf(),
            r.inner.nrows == self.inner.nrows,
            r.inner.ncols == 1,
            r.unit == self.unit,
    {
        UniformUnitMatrix { inner: na_lerp(&self.inner, &other.inner, t), unit: self.unit }
    }

    /// The inverse of a square matrix, of the reciprocal unit (`None` when
    /// singular).
    pub fn try_inverse(self) -> (r: Option<Self>)
        requires
            self.wf(),
            self.inner.nrows == self.inner.ncols,
            self.unit.operable(),
        ensures
            r matches Some(x) ==> square_of(x, self.inner.nrows as int) && x.unit.exps() == spec_inv(self.unit.exps())
                && small_inverse_rel(self.inner, x.inner),
    {
        with_unit(na_try_inverse(&self.inner), self.unit.inv())
    }

    /// Solves `A x = b` for a square `A` by LU; a solution has the unit
    /// `b.unit / A.unit` (`None` when `A` is singular).
    pub fn solve(&self, b: &Self) -> (r: Option<Self>)
        requires
            self.wf(),
            b.wf(),
            self.inner.nrows == self.inner.ncols,
            b.inner.nrows == self.inner.nrows,
            self.unit.operable(),
            b.unit.operable(),
        ensures
            r matches Some(x) ==> x.wf() && x.inner.nrows == b.inner.nrows && x.inner.ncols == b.inner.ncols
                && x.unit.exps() == spec_div(b.unit.exps(), self.unit.exps())
                && small_solve_rel(self.inner, b.inner, x.inner),
    {
        with_unit(na_lu_solve(&self.inner, &b.inner), b.unit.div(&self.unit))
    }

    /// Solves `A x = b` with the lower triangle of the square `A`; a solution
    /// has the unit `b.unit / A.unit` (`None` on a zero diagonal entry).
    pub fn solve_lower_triangular(&self, b: &Self) -> (r: Option<Self>)
        requires
            self.wf(),
            b.wf(),
            self.inner.nrows == self.inner.ncols,
            b.inner.nrows == self.inner.nrows,
            self.unit.operable(),
            b.unit.operable(),
        ensures
            r matches Some(x) ==> x.wf() && x.inner.nrows == b.inner.nrows && x.inner.ncols == b.inner.ncols
                && x.unit.exps() == spec_div(b.unit.exps(), self.unit.exps())
                && small_lower_solve_rel(self.inner, b.inner, x.inner),
    {
        with_unit(na_solve_lower(&self.inner, &b.inner), b.unit.div(&self.unit))
    }

    /// Solves `A x = b` with the upper triangle of the square `A`; a solution
    /// has the unit `b.unit / A.unit` (`None` on a zero diagonal entry).
    pub fn solve_upper_triangular(&self, b: &Self) -> (r: Option<Self>)
        requires
            self.wf(),
            b.wf(),
            self.inner.nrows == self.inner.ncols,
            b.inner.nrows == self.inner.nrows,
            self.unit.operable(),
            b.unit.operable(),
        ensures
            r matches Some(x) ==> x.wf() && x.inner.nrows == b.inner.nrows && x.inner.ncols == b.inner.ncols
                && x.unit.exps() == spec_div(b.unit.exps(), self.unit.exps())
                && small_upper_solve_rel(self.inner, b.inner, x.inner),
    {
        with_unit(na_solve_upper(&self.inner, &b.inner), b.unit.div(&self.unit))
    }

    /// The determinant of an `n × n` matrix of unit `U`, a quantity of unit
    /// `Uⁿ`.
    pub fn determinant(&self) -> (r: Quantity<T>)
        requires
            self.wf(),
            self.inner.nrows == self.inner.ncols,
            product_defined(repeated(self.unit, self.inner.nrows as nat)),
        ensures
            r.unit.exps() == spec_product(repeated(self.unit, self.inner.nrows as nat)),
            small_det_rel(self.inner, r.value),
    {
        Quantity { value: na_determinant(&self.inner), unit: unit_pow(&self.unit, self.inner.nrows) }
    }

    /// The integer power `Aᵏ` of a square matrix of unit `U`, of unit `Uᵏ`.
    pub fn powi(&self, k: u32) -> (r: Self)
        requires
            self.wf(),
            self.inner.nrows == self.inner.ncols,
            product_defined(repeated(self.unit, k as nat)),
        ensures
            square_of(r, self.inner.nrows as int),
            r.unit.exps() == spec_product(repeated(self.unit, k as nat)),
            k == 0 ==> exists|z: T, o: T| identity_pattern(r.inner, z, o),
            k == 1 ==> r.inner.data@ == self.inner.data@,
    {
        let inner = na_pow(&self.inner, k);
        let r = UniformUnitMatrix { inner, unit: unit_pow(&self.unit, k as usize) };
        proof {
            if k == 0 {
                let (z, o) = choose|z: T, o: T| identity_pattern(inner, z, o);
                assert(identity_pattern(r.inner, z, o));
            }
        }
        r
    }

    /// The LU factors `A = Pᵀ L U` of a square matrix of unit `U`.
    pub fn lu(&self) -> (r: UniformLU<T>)
        requires
            self.wf(),
            self.inner.nrows == self.inner.ncols,
        ensures
            r.wf(),
            r.u.inner.nrows == self.inner.nrows,
            r.u.unit == self.unit,
    {
        let (p, l, u) = na_lu_factors(&self.inner);
        UniformLU {
            l: UniformUnitMatrix { inner: l, unit: Unit::dimensionless() },
            u: UniformUnitMatrix { inner: u, unit: self.unit },
            p: UniformUnitMatrix { inner: p, unit: Unit::dimensionless() },
        }
    }

    /// The full-pivoting LU factors `A = Pᵀ L U Qᵀ` of a square matrix of
    /// unit `U`.
    pub fn full_piv_lu(&self) -> (r: UniformFullPivLU<T>)
        requires
            self.wf(),
            self.inner.nrows == self.inner.ncols,
        ensures
            r.wf(),
            r.u.inner.nrows == self.inner.nrows,
            r.u.unit == self.unit,
    {
        let (p, q, l, u) = na_full_piv_factors(&self.inner);
        UniformFullPivLU {
            l: UniformUnitMatrix { inner: l, unit: Unit::dimensionless() },
            u: UniformUnitMatrix { inner: u, unit: self.unit },
            p: UniformUnitMatrix { inner: p, unit: Unit::dimensionless() },
            q: UniformUnitMatrix { inner: q, unit: Unit::dimensionless() },
        }
    }
}

impl<T: nalgebra::RealField + Copy> UniformUnitMatrix<T> {
    /// Every entry multiplied by the dimensionless real `factor`; the unit is
    /// kept.
    pub fn scale(&self, factor: T) -> (r: Self)
        requires
            self.wf(),
        ensures
            r.wf(),
            r.inner.nrows == self.inner.nrows,
            r.inner.ncols == self.inner.ncols,
            r.unit == self.unit,
            forall|i: int, j: int| 0 <= i < self.inner.nrows && 0 <= j < self.inner.ncols ==>
                vstd::std_specs::ops::mul_ensures::<T>(self.inner.at(i, j), factor, #[trigger] r.inner.at(i, j)),
    {
        UniformUnitMatrix { inner: na_scale(&self.inner, factor), unit: self.unit }
    }

    /// Every entry divided by the dimensionless real `factor`; the unit is
    /// kept.
    pub fn unscale(&self, factor: T) -> (r: Self)
        requires
            self.wf(),
        ensures
            r.wf(),
            r.inner.nrows == self.inner.nrows,
            r.inner.ncols == self.inner.ncols,
            r.unit == self.unit,
            forall|i: int, j: int| 0 <= i < self.inner.nrows && 0 <= j < self.inner.ncols ==>
                vstd::std_specs::ops::div_ensures::<T>(self.inner.at(i, j), factor, #[trigger] r.inner.at(i, j)),
    {
        UniformUnitMatrix { inner: na_unscale(&self.inner, factor), unit: self.unit }
    }

    /// The entry-wise minimum of two matrices of one shape and unit.
    pub fn inf(&self, other: &Self) -> (r: Self)
        requires
            self.wf(),
            other.wf(),
            self.inner.nrows == other.inner.nrows,
            self.inner.ncols == other.inner.ncols,
            self.unit == other.unit,
        ensures
            r.wf(),
            r.inner.nrows == self.inner.nrows,
            r.inner.ncols == self.inner.ncols,
            r.unit == self.unit,
    {
        UniformUnitMatrix { inner: na_inf(&self.inner, &other.inner), unit: self.unit }
    }

    /// The entry-wise maximum of two matrices of one shape and unit.
    pub fn sup(&self, other: &Self) -> (r: Self)
        requires
            self.wf(),
            other.wf(),
            self.inner.nrows == other.inner.nrows,
            self.inner.ncols == other.inner.ncols,
            self.unit == other.unit,
        ensures
            r.wf(),
            r.inner.nrows == self.inner.nrows,
            r.inner.ncols == self.inner.ncols,
            r.unit == self.unit,
    {
        UniformUnitMatrix { inner: na_sup(&self.inner, &other.inner), unit: self.unit }
    }

    /// The complex eigenvalues of a non-empty real square matrix, a column of the
    /// matrix's unit (`None` when the backend's iteration does not converge
    /// within [`ITERATION_LIMIT`] sweeps).
    pub fn complex_eigenvalues(&self) -> (r: Option<UniformUnitMatrix<Complex<T>>>)
        requires
            self.wf(),
            self.inner.nrows == self.inner.ncols,
            self.inner.nrows > 0,
        ensures
            r matches Some(v) ==> v.wf() && v.inner.nrows == self.inner.nrows && v.inner.ncols == 1
                && v.unit == self.unit,
    {
        match na_complex_eigenvalues(&self.inner, ITERATION_LIMIT) {
            Some(inner) => Some(UniformUnitMatrix { inner, unit: self.unit }),
            None => None,
        }
    }
}

impl<T: nalgebra::RealField + Copy> UniformUnitMatrix<T> {
    /// The eigenvalues of a non-empty square matrix, a column of the matrix's unit
    /// (`None` when the backend finds no real spectrum or its iteration does
    /// not converge within [`ITERATION_LIMIT`] sweeps).
    pub fn eigenvalues(&self) -> (r: Option<Self>)
        requires
            self.wf(),
            self.inner.nrows == self.inner.ncols,
            self.inner.nrows > 0,
        ensures
            r matches Some(v) ==> v.wf() && v.inner.nrows == self.inner.nrows && v.inner.ncols == 1 && v.unit == self.unit,
    {
        with_unit(na_eigenvalues(&self.inner, ITERATION_LIMIT), self.unit)
    }
}

} // verus!
