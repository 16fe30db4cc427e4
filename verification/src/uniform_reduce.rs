//! Reductions, vector geometry and entry-wise maps of uniform matrices.
//!
//! Every entry of a uniform matrix carries the one unit `U`, so whole-matrix
//! reductions are cleanly dimensioned: sums, means, extrema and norms stay in
//! `U`, squares and variances land in `U²`, products of two matrices multiply
//! their units, a product of all `n` entries is `Uⁿ`, and normalized results
//! (including the angle between vectors) are dimensionless or in radians.

use vstd::prelude::*;
use crate::backend::shaped;
use crate::backend_reduce::{
    na_add_scalar, na_amax, na_amin, na_angle, na_column_variance, na_cross, na_dot, na_lp_norm,
    na_magnitude, na_magnitude_squared, na_max, na_mean, na_metric_distance, na_min, na_norm,
    na_norm_squared, na_normalize, na_product, na_row_variance, na_slerp, na_sum, na_try_normalize,
    na_variance,
};
use crate::dims::{product_defined, spec_product};
use crate::quantity::Quantity;
use crate::raw::{cm, RawMatrix};
use crate::uniform::{repeated, unit_pow, UniformUnitMatrix};
use crate::unit::{spec_div, spec_mul, spec_one, Unit};

verus! {

/// The unit of an angle, the radian (the angle dimension, unscaled).
pub open spec fn spec_radian() -> Seq<int> {
    Seq::new(12, |k: int| if k == 11 { 1int } else { 0int })
}

/// The radian.
pub fn radian() -> (r: Unit)
    ensures
        r.exps() == spec_radian(),
{
    let r = Unit::from_exponents([0, 0, 0, 0, 0, 0, 0, 0, 0, 0, 0, 1]);
    assert(r.exps() =~= spec_radian());
    r
}

/// `m` is a well-formed column of `n` entries.
pub open spec fn is_column<T>(m: UniformUnitMatrix<T>, n: int) -> bool {
    &&& m.wf()
    &&& m.inner.nrows == n
    &&& m.inner.ncols == 1
}

impl<T: nalgebra::ComplexField + Copy> UniformUnitMatrix<T> {
    /// The sum of every entry, in `U`.
    pub fn sum(&self) -> (r: Quantity<T>)
        requires
            self.wf(),
        ensures
            r.unit == self.unit,
    {
        Quantity { value: na_sum(&self.inner), unit: self.unit }
    }

    /// The mean of every entry, in `U`.
    pub fn mean(&self) -> (r: Quantity<T>)
        requires
            self.wf(),
        ensures
            r.unit == self.unit,
    {
        Quantity { value: na_mean(&self.inner), unit: self.unit }
    }

    /// The Frobenius inner product with a matrix of the same shape, in
    /// `U · Ub` (every summed term multiplies the two entry units).
    pub fn dot(&self, other: &UniformUnitMatrix<T>) -> (r: Quantity<T>)
        requires
            self.wf(),
            other.wf(),
            self.inner.nrows == other.inner.nrows,
            self.inner.ncols == other.inner.ncols,
            self.unit.operable(),
            other.unit.operable(),
        ensures
            r.unit.exps() == spec_mul(self.unit.exps(), other.unit.exps()),
    {
        Quantity { value: na_dot(&self.inner, &other.inner), unit: self.unit.mul(&other.unit) }
    }

    /// The population variance of every entry, in `U²`.
    pub fn variance(&self) -> (r: Quantity<T>)
        requires
            self.wf(),
            self.unit.operable(),
        ensures
            r.unit.exps() == spec_mul(self.unit.exps(), self.unit.exps()),
    {
        Quantity { value: na_variance(&self.inner), unit: self.unit.mul(&self.unit) }
    }

    /// The variance of every column, as a `1 × ncols` row in `U²`.
    pub fn row_variance(&self) -> (r: Self)
        requires
            self.wf(),
            self.unit.operable(),
        ensures
            shaped(r.inner, 1, self.inner.ncols as int),
            r.unit.exps() == spec_mul(self.unit.exps(), self.unit.exps()),
    {
        UniformUnitMatrix { inner: na_row_variance(&self.inner), unit: self.unit.mul(&self.unit) }
    }

    /// The variance of every row, as an `nrows × 1` column in `U²`.
    pub fn column_variance(&self) -> (r: Self)
        requires
            self.wf(),
            self.unit.operable(),
        ensures
            shaped(r.inner, self.inner.nrows as int, 1),
            r.unit.exps() == spec_mul(self.unit.exps(), self.unit.exps()),
    {
        UniformUnitMatrix { inner: na_column_variance(&self.inner), unit: self.unit.mul(&self.unit) }
    }

    /// The product of every entry, in `Uⁿ` for the `n = nrows · ncols`
    /// entries.
    pub fn product(&self) -> (r: Quantity<T>)
        requires
            self.wf(),
            product_defined(repeated(self.unit, self.inner.data.len() as nat)),
        ensures
            r.unit.exps() == spec_product(repeated(self.unit, (self.inner.nrows * self.inner.ncols) as nat)),
    {
        Quantity { value: na_product(&self.inner), unit: unit_pow(&self.unit, self.inner.data.len()) }
    }

    /// The cross product of two `3 × 1` columns, in `U · Ub`.
    pub fn cross(&self, other: &UniformUnitMatrix<T>) -> (r: Self)
        requires
            is_column(*self, 3),
            is_column(*other, 3),
            self.unit.operable(),
            other.unit.operable(),
        ensures
            is_column(r, 3),
            r.unit.exps() == spec_mul(self.unit.exps(), other.unit.exps()),
    {
        UniformUnitMatrix { inner: na_cross(&self.inner, &other.inner), unit: self.unit.mul(&other.unit) }
    }

    /// Adds a scalar of the matrix's unit to every entry, staying in `U`.
    pub fn add_scalar(&self, scalar: Quantity<T>) -> (r: Self)
        requires
            self.wf(),
            scalar.unit == self.unit,
        ensures
            forall|i: int, j: int| 0 <= i < self.inner.nrows && 0 <= j < self.inner.ncols ==>
                vstd::std_specs::ops::add_ensures::<T>(self.inner.at(i, j), scalar.value, #[trigger] r.inner.at(i, j)),
            shaped(r.inner, self.inner.nrows as int, self.inner.ncols as int),
            r.unit == self.unit,
    {
        UniformUnitMatrix { inner: na_add_scalar(&self.inner, scalar.value), unit: self.unit }
    }

    /// The matrix over its Frobenius norm, in `U / U`: dimensionless.
    pub fn normalize(&self) -> (r: Self)
        requires
            self.wf(),
            self.unit.operable(),
        ensures
            shaped(r.inner, self.inner.nrows as int, self.inner.ncols as int),
            r.unit.exps() == spec_div(self.unit.exps(), self.unit.exps()),
    {
        UniformUnitMatrix { inner: na_normalize(&self.inner), unit: self.unit.div(&self.unit) }
    }
}

impl<T: nalgebra::RealField + Copy> UniformUnitMatrix<T> {
    /// The Frobenius norm, in `U`.
    pub fn norm(&self) -> (r: Quantity<T>)
        requires
            self.wf(),
        ensures
            r.unit == self.unit,
    {
        Quantity { value: na_norm(&self.inner), unit: self.unit }
    }

    /// The Frobenius norm under nalgebra's other name, in `U`.
    pub fn magnitude(&self) -> (r: Quantity<T>)
        requires
            self.wf(),
        ensures
            r.unit == self.unit,
    {
        Quantity { value: na_magnitude(&self.inner), unit: self.unit }
    }

    /// The squared Frobenius norm, in `U²`.
    pub fn norm_squared(&self) -> (r: Quantity<T>)
        requires
            self.wf(),
            self.unit.operable(),
        ensures
            r.unit.exps() == spec_mul(self.unit.exps(), self.unit.exps()),
    {
        Quantity { value: na_norm_squared(&self.inner), unit: self.unit.mul(&self.unit) }
    }

    /// The squared Frobenius norm under nalgebra's other name, in `U²`.
    pub fn magnitude_squared(&self) -> (r: Quantity<T>)
        requires
            self.wf(),
            self.unit.operable(),
        ensures
            r.unit.exps() == spec_mul(self.unit.exps(), self.unit.exps()),
    {
        Quantity { value: na_magnitude_squared(&self.inner), unit: self.unit.mul(&self.unit) }
    }

    /// The `p`-norm, in `U` (the power and its root cancel).
    pub fn lp_norm(&self, p: i32) -> (r: Quantity<T>)
        requires
            self.wf(),
        ensures
            r.unit == self.unit,
    {
        Quantity { value: na_lp_norm(&self.inner, p), unit: self.unit }
    }

    /// The largest entry, in `U`.
    pub fn max(&self) -> (r: Quantity<T>)
        requires
            self.wf(),
        ensures
            r.unit == self.unit,
    {
        Quantity { value: na_max(&self.inner), unit: self.unit }
    }

    /// The smallest entry, in `U`.
    pub fn min(&self) -> (r: Quantity<T>)
        requires
            self.wf(),
        ensures
            r.unit == self.unit,
    {
        Quantity { value: na_min(&self.inner), unit: self.unit }
    }

    /// The largest entry by absolute value, in `U`.
    pub fn amax(&self) -> (r: Quantity<T>)
        requires
            self.wf(),
        ensures
            r.unit == self.unit,
    {
        Quantity { value: na_amax(&self.inner), unit: self.unit }
    }

    /// The smallest entry by absolute value, in `U`.
    pub fn amin(&self) -> (r: Quantity<T>)
        requires
            self.wf(),
        ensures
            r.unit == self.unit,
    {
        Quantity { value: na_amin(&self.inner), unit: self.unit }
    }

    /// The angle between two columns of one length and unit, in radians
    /// (both are normalized, so their unit cancels).
    pub fn angle(&self, other: &UniformUnitMatrix<T>) -> (r: Quantity<T>)
        requires
            is_column(*self, self.inner.nrows as int),
            is_column(*other, self.inner.nrows as int),
            self.unit == other.unit,
        ensures
            r.unit.exps() == spec_radian(),
    {
        Quantity { value: na_angle(&self.inner, &other.inner), unit: radian() }
    }

    /// The distance `‖self − other‖` between two columns of one length and
    /// unit, in that unit.
    pub fn metric_distance(&self, other: &UniformUnitMatrix<T>) -> (r: Quantity<T>)
        requires
            is_column(*self, self.inner.nrows as int),
            is_column(*other, self.inner.nrows as int),
            self.unit == other.unit,
        ensures
            r.unit == self.unit,
    {
        Quantity { value: na_metric_distance(&self.inner, &other.inner), unit: self.unit }
    }

    /// The distance between two columns, as [`metric_distance`](Self::metric_distance).
    pub fn distance(&self, other: &UniformUnitMatrix<T>) -> (r: Quantity<T>)
        requires
            is_column(*self, self.inner.nrows as int),
            is_column(*other, self.inner.nrows as int),
            self.unit == other.unit,
        ensures
            r.unit == self.unit,
    {
        self.metric_distance(other)
    }

    /// Spherical interpolation between two columns of one length and unit: a
    /// dimensionless unit column (both inputs are normalized).
    pub fn slerp(&self, other: &UniformUnitMatrix<T>, t: T) -> (r: Self)
        requires
            is_column(*self, self.inner.nrows as int),
            is_column(*other, self.inner.nrows as int),
            self.unit == other.unit,
        ensures
            is_column(r, self.inner.nrows as int),
            r.unit.exps() == spec_one(),
    {
        UniformUnitMatrix { inner: na_slerp(&self.inner, &other.inner, t), unit: Unit::dimensionless() }
    }

    /// [`normalize`](UniformUnitMatrix::normalize), or `None` when the norm is
    /// at most `min_norm`.
    pub fn try_normalize(&self, min_norm: T) -> (r: Option<Self>)
        requires
            self.wf(),
            self.unit.operable(),
        ensures
            r matches Some(n) ==> shaped(n.inner, self.inner.nrows as int, self.inner.ncols as int)
                && n.unit.exps() == spec_div(self.unit.exps(), self.unit.exps()),
    {
        match na_try_normalize(&self.inner, min_norm) {
            Some(m) => Some(UniformUnitMatrix { inner: m, unit: self.unit.div(&self.unit) }),
            None => None,
        }
    }
}

impl<T: Copy> UniformUnitMatrix<T> {
    /// Every entry as a quantity of the matrix's unit, in storage
    /// (column-major) order.
    pub fn iter(&self) -> (r: Vec<Quantity<T>>)
        requires
            self.wf(),
        ensures
            r.len() == self.inner.data.len(),
            forall|k: int| 0 <= k < r.len() ==> #[trigger] r@[k] == (Quantity { value: self.inner.data@[k], unit: self.unit }),
    {
        let mut out: Vec<Quantity<T>> = Vec::new();
        let mut k: usize = 0;
        while k < self.inner.data.len()
            invariant
                k <= self.inner.data.len(),
                out.len() == k,
                forall|p: int| 0 <= p < k ==> #[trigger] out@[p] == (Quantity { value: self.inner.data@[p], unit: self.unit }),
            decreases self.inner.data.len() - k,
        {
            out.push(Quantity { value: self.inner.data[k], unit: self.unit });
            k += 1;
        }
        out
    }

    /// Applies a unit-preserving map to every entry: `f` receives each entry
    /// as a quantity of the matrix's unit and returns one of the same unit.
    pub fn map<F: Fn(Quantity<T>) -> Quantity<T>>(&self, f: F) -> (r: Self)
        requires
            self.wf(),
            forall|q: Quantity<T>| q.unit == self.unit ==> #[trigger] f.requires((q,)),
            forall|q: Quantity<T>, o: Quantity<T>| q.unit == self.unit && #[trigger] f.ensures((q,), o) ==> o.unit == self.unit,
        ensures
            r.wf(),
            r.inner.nrows == self.inner.nrows,
            r.inner.ncols == self.inner.ncols,
            r.unit == self.unit,
            forall|k: int| 0 <= k < self.inner.data.len() ==> f.ensures(
                (Quantity { value: self.inner.data@[k], unit: self.unit },),
                (Quantity { value: #[trigger] r.inner.data@[k], unit: self.unit }),
            ),
    {
        let mut data: Vec<T> = Vec::new();
        let mut k: usize = 0;
        while k < self.inner.data.len()
            invariant
                k <= self.inner.data.len(),
                data.len() == k,
                forall|q: Quantity<T>| q.unit == self.unit ==> #[trigger] f.requires((q,)),
                forall|q: Quantity<T>, o: Quantity<T>| q.unit == self.unit && #[trigger] f.ensures((q,), o) ==> o.unit == self.unit,
                forall|p: int| 0 <= p < k ==> f.ensures(
                    (Quantity { value: self.inner.data@[p], unit: self.unit },),
                    (Quantity { value: #[trigger] data@[p], unit: self.unit }),
                ),
            decreases self.inner.data.len() - k,
        {
            let q = Quantity { value: self.inner.data[k], unit: self.unit };
            let o = f(q);
            assert(o == Quantity { value: o.value, unit: self.unit });
            data.push(o.value);
            k += 1;
        }
        UniformUnitMatrix { inner: RawMatrix { nrows: self.inner.nrows, ncols: self.inner.ncols, data }, unit: self.unit }
    }

    /// Combines this matrix with another of the same shape entry by entry:
    /// `f` receives the two entries as quantities of their units and returns
    /// one of the result unit `unit`.
    pub fn zip_map<F: Fn(Quantity<T>, Quantity<T>) -> Quantity<T>>(&self, other: &UniformUnitMatrix<T>, unit: Unit, f: F) -> (r: Self)
        requires
            self.wf(),
            other.wf(),
            self.inner.nrows == other.inner.nrows,
            self.inner.ncols == other.inner.ncols,
            forall|a: Quantity<T>, b: Quantity<T>| a.unit == self.unit && b.unit == other.unit ==> #[trigger] f.requires((a, b)),
            forall|a: Quantity<T>, b: Quantity<T>, o: Quantity<T>|
                a.unit == self.unit && b.unit == other.unit && #[trigger] f.ensures((a, b), o) ==> o.unit == unit,
        ensures
            r.wf(),
            r.inner.nrows == self.inner.nrows,
            r.inner.ncols == self.inner.ncols,
            r.unit == unit,
            forall|k: int| 0 <= k < self.inner.data.len() ==> f.ensures(
                (Quantity { value: self.inner.data@[k], unit: self.unit }, Quantity { value: other.inner.data@[k], unit: other.unit }),
                (Quantity { value: #[trigger] r.inner.data@[k], unit: unit }),
            ),
    {
        let mut data: Vec<T> = Vec::new();
        let mut k: usize = 0;
        while k < self.inner.data.len()
            invariant
                k <= self.inner.data.len(),
                self.inner.data.len() == other.inner.data.len(),
                data.len() == k,
                forall|a: Quantity<T>, b: Quantity<T>| a.unit == self.unit && b.unit == other.unit ==> #[trigger] f.requires((a, b)),
                forall|a: Quantity<T>, b: Quantity<T>, o: Quantity<T>|
                    a.unit == self.unit && b.unit == other.unit && #[trigger] f.ensures((a, b), o) ==> o.unit == unit,
                forall|p: int| 0 <= p < k ==> f.ensures(
                    (Quantity { value: self.inner.data@[p], unit: self.unit }, Quantity { value: other.inner.data@[p], unit: other.unit }),
                    (Quantity { value: #[trigger] data@[p], unit: unit }),
                ),
            decreases self.inner.data.len() - k,
        {
            let a = Quantity { value: self.inner.data[k], unit: self.unit };
            let b = Quantity { value: other.inner.data[k], unit: other.unit };
            let o = f(a, b);
            assert(o == Quantity { value: o.value, unit: unit });
            data.push(o.value);
            k += 1;
        }
        UniformUnitMatrix { inner: RawMatrix { nrows: self.inner.nrows, ncols: self.inner.ncols, data }, unit }
    }

    /// The `nrows × ncols` matrix of unit `unit` whose entry `(i, j)` is
    /// `f(i, j)`, a quantity of that unit.
    pub fn from_fn<F: Fn(usize, usize) -> Quantity<T>>(nrows: usize, ncols: usize, unit: Unit, f: F) -> (r: Self)
        requires
            nrows * ncols <= usize::MAX,
            forall|i: usize, j: usize| i < nrows && j < ncols ==> #[trigger] f.requires((i, j)),
            forall|i: usize, j: usize, o: Quantity<T>| i < nrows && j < ncols && #[trigger] f.ensures((i, j), o) ==> o.unit == unit,
        ensures
            r.wf(),
            r.inner.nrows == nrows,
            r.inner.ncols == ncols,
            r.unit == unit,
            forall|i: int, j: int| #![trigger r.inner.at(i, j)] 0 <= i < nrows && 0 <= j < ncols ==>
                f.ensures((i as usize, j as usize), (Quantity { value: r.inner.at(i, j), unit: unit })),
    {
        let mut data: Vec<T> = Vec::new();
        let mut j: usize = 0;
        while j < ncols
            invariant
                j <= ncols,
                nrows * ncols <= usize::MAX,
                forall|i: usize, j: usize| i < nrows && j < ncols ==> #[trigger] f.requires((i, j)),
                forall|i: usize, j: usize, o: Quantity<T>| i < nrows && j < ncols && #[trigger] f.ensures((i, j), o) ==> o.unit == unit,
                filled_from(data@, nrows as int, j as int, 0, f, unit),
            decreases ncols - j,
        {
            let mut i: usize = 0;
            while i < nrows
                invariant
                    i <= nrows,
                    j < ncols,
                    nrows * ncols <= usize::MAX,
                    forall|i: usize, j: usize| i < nrows && j < ncols ==> #[trigger] f.requires((i, j)),
                    forall|i: usize, j: usize, o: Quantity<T>| i < nrows && j < ncols && #[trigger] f.ensures((i, j), o) ==> o.unit == unit,
                    filled_from(data@, nrows as int, j as int, i as int, f, unit),
                decreases nrows - i,
            {
                let o = f(i, j);
                assert(o == Quantity { value: o.value, unit: unit });
                let ghost old_data = data@;
                data.push(o.value);
                proof {
                    assert(data@.len() == j * nrows + i + 1);
                    assert forall|p: int, q: int|
                        0 <= p < nrows && 0 <= q && (q < j || (q == j && p < i + 1)) implies
                            f.ensures((p as usize, q as usize), (Quantity { value: #[trigger] data@[cm(p, q, nrows as int)], unit: unit })) by {
                        if q == j && p == i {
                        } else {
                            assert(cm(p, q, nrows as int) < j * nrows + i) by (nonlinear_arith)
                                requires 0 <= p < nrows, 0 <= q, (q < j || (q == j && p < i));
                            assert(data@[cm(p, q, nrows as int)] == old_data[cm(p, q, nrows as int)]);
                        }
                    }
                }
                i += 1;
            }
            proof {
                assert((j + 1) * nrows == j * nrows + nrows) by (nonlinear_arith);
            }
            j += 1;
        }
        proof {
            assert(ncols * nrows == nrows * ncols) by (nonlinear_arith);
        }
        let r = RawMatrix { nrows, ncols, data };
        UniformUnitMatrix { inner: r, unit }
    }
}

/// The first `j` full columns and the first `i` entries of column `j` of a
/// column-major buffer hold values `f` returns, with the unit `unit`.
pub open spec fn filled_from<T, F: Fn(usize, usize) -> Quantity<T>>(data: Seq<T>, nrows: int, j: int, i: int, f: F, unit: Unit) -> bool {
    &&& data.len() == j * nrows + i
    &&& forall|p: int, q: int|
        #![trigger data[cm(p, q, nrows)]]
        0 <= p < nrows && 0 <= q && (q < j || (q == j && p < i)) ==> f.ensures((p as usize, q as usize), (Quantity { value: data[cm(p, q, nrows)], unit: unit }))
}

} // verus!
