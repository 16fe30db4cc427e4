//! Arithmetic on mixed-unit matrices.
//!
//! The numbers are computed by the backend; what is decided and proved here
//! is the unit bookkeeping: which operands are compatible, and which unit
//! lists the result carries, so that every entry of the result has the unit
//! the operation gives it.

use vstd::prelude::*;
use crate::backend::{
    na_ad_mul, na_add, na_adjoint, na_component_div, na_component_mul, na_div_scalar,
    na_kronecker, na_mul, na_mul_scalar, na_neg, na_pow, na_scale, na_sub, na_tr_mul, na_trace,
    na_unscale,
};
use crate::dims::{
    copy_list, cross_mul, is_mapped, is_zip_div, is_zip_mul, list_operable, map_applies,
    map_units, uniform_diag, zip_div, zip_mul, UnitMap,
};
use crate::matrix::{identity_pattern, MixedUnitMatrix};
use crate::quantity::Quantity;
use crate::relations::{is_product, product_in_order};
use crate::unit::{spec_div, spec_inv, spec_mul, Unit};

verus! {

/// `(a / k) · (k / b) = a / b`: the inner unit of a product cancels.
pub proof fn lemma_mul_cancel(a: Seq<int>, k: Seq<int>, b: Seq<int>)
    ensures
        spec_mul(spec_div(a, k), spec_div(k, b)) == spec_div(a, b),
{
    assert(spec_mul(spec_div(a, k), spec_div(k, b)) =~= spec_div(a, b));
}

/// `(a / b) · (c / d) = (a · c) / (b · d)`.
pub proof fn lemma_quotient_mul(a: Seq<int>, b: Seq<int>, c: Seq<int>, d: Seq<int>)
    ensures
        spec_mul(spec_div(a, b), spec_div(c, d)) == spec_div(spec_mul(a, c), spec_mul(b, d)),
{
    assert(spec_mul(spec_div(a, b), spec_div(c, d)) =~= spec_div(spec_mul(a, c), spec_mul(b, d)));
}

/// `(a / b) / (c / d) = (a / c) / (b / d)`.
pub proof fn lemma_quotient_div(a: Seq<int>, b: Seq<int>, c: Seq<int>, d: Seq<int>)
    ensures
        spec_div(spec_div(a, b), spec_div(c, d)) == spec_div(spec_div(a, c), spec_div(b, d)),
{
    assert(spec_div(spec_div(a, b), spec_div(c, d)) =~= spec_div(spec_div(a, c), spec_div(b, d)));
}

/// `(a · v) / b = (a / b) · v`.
pub proof fn lemma_scaled_quotient(a: Seq<int>, b: Seq<int>, v: Seq<int>)
    ensures
        spec_div(spec_mul(a, v), b) == spec_mul(spec_div(a, b), v),
        spec_div(spec_div(a, v), b) == spec_div(spec_div(a, b), v),
{
    assert(spec_div(spec_mul(a, v), b) =~= spec_mul(spec_div(a, b), v));
    assert(spec_div(spec_div(a, v), b) =~= spec_div(spec_div(a, b), v));
}

/// `(1 / c) / (1 / r) = r / c`: the transpose keeps each entry's unit.
pub proof fn lemma_reciprocal_quotient(r: Seq<int>, c: Seq<int>)
    ensures
        spec_div(spec_inv(c), spec_inv(r)) == spec_div(r, c),
{
    assert(spec_div(spec_inv(c), spec_inv(r)) =~= spec_div(r, c));
}

impl<T: nalgebra::ComplexField + Copy> MixedUnitMatrix<T> {
    /// The matrix product `self · rhs`, defined when `self`'s column units
    /// are `rhs`'s row units. The result is `⟨row_dims, rhs.col_dims⟩`, and
    /// every term `self(i, k) · rhs(k, j)` of entry `(i, j)` carries that
    /// entry's unit.
    pub fn mul(&self, rhs: &Self) -> (r: Self)
        requires
            self.wf(),
            rhs.wf(),
            self.cols() == rhs.rows(),
        ensures
            r.wf(),
            r.rows() == self.rows(),
            r.cols() == rhs.cols(),
            forall|i: int, k: int, j: int|
                0 <= i < self.rows().len() && 0 <= k < self.cols().len() && 0 <= j < rhs.cols().len() ==>
                    spec_mul(#[trigger] self.unit_at(i, k), #[trigger] rhs.unit_at(k, j)) == r.unit_at(i, j),
            product_in_order(self.inner.nrows as int, self.inner.ncols as int, rhs.inner.ncols as int)
                ==> is_product(self.inner, rhs.inner, r.inner),
    {
        let r = MixedUnitMatrix {
            inner: na_mul(&self.inner, &rhs.inner),
            row_dims: copy_list(&self.row_dims),
            col_dims: copy_list(&rhs.col_dims),
        };
        proof {
            assert forall|i: int, k: int, j: int|
                0 <= i < self.rows().len() && 0 <= k < self.cols().len() && 0 <= j < rhs.cols().len() implies
                    spec_mul(#[trigger] self.unit_at(i, k), #[trigger] rhs.unit_at(k, j)) == r.unit_at(i, j) by {
                lemma_mul_cancel(self.rows()[i].exps(), self.cols()[k].exps(), rhs.cols()[j].exps());
            }
        }
        r
    }

    /// The entry-wise sum of two matrices with the same unit lists.
    pub fn add(&self, rhs: &Self) -> (r: Self)
        requires
            self.wf(),
            rhs.wf(),
            self.rows() == rhs.rows(),
            self.cols() == rhs.cols(),
        ensures
            r.wf(),
            r.rows() == self.rows(),
            r.cols() == self.cols(),
            forall|i: int, j: int| 0 <= i < self.inner.nrows && 0 <= j < self.inner.ncols ==>
                vstd::std_specs::ops::add_ensures::<T>(self.inner.at(i, j), rhs.inner.at(i, j), #[trigger] r.inner.at(i, j)),
    {
        MixedUnitMatrix {
            inner: na_add(&self.inner, &rhs.inner),
            row_dims: copy_list(&self.row_dims),
            col_dims: copy_list(&self.col_dims),
        }
    }

    /// The entry-wise difference of two matrices with the same unit lists.
    pub fn sub(&self, rhs: &Self) -> (r: Self)
        requires
            self.wf(),
            rhs.wf(),
            self.rows() == rhs.rows(),
            self.cols() == rhs.cols(),
        ensures
            r.wf(),
            r.rows() == self.rows(),
            r.cols() == self.cols(),
            forall|i: int, j: int| 0 <= i < self.inner.nrows && 0 <= j < self.inner.ncols ==>
                vstd::std_specs::ops::sub_ensures::<T>(self.inner.at(i, j), rhs.inner.at(i, j), #[trigger] r.inner.at(i, j)),
    {
        MixedUnitMatrix {
            inner: na_sub(&self.inner, &rhs.inner),
            row_dims: copy_list(&self.row_dims),
            col_dims: copy_list(&self.col_dims),
        }
    }

    /// In-place [`add`](Self::add).
    pub fn add_assign(&mut self, rhs: &Self)
        requires
            old(self).wf(),
            rhs.wf(),
            old(self).rows() == rhs.rows(),
            old(self).cols() == rhs.cols(),
        ensures
            final(self).wf(),
            final(self).rows() == old(self).rows(),
            final(self).cols() == old(self).cols(),
            forall|i: int, j: int| 0 <= i < old(self).inner.nrows && 0 <= j < old(self).inner.ncols ==>
                vstd::std_specs::ops::add_ensures::<T>(old(self).inner.at(i, j), rhs.inner.at(i, j), #[trigger] final(self).inner.at(i, j)),
    {
        self.inner = na_add(&self.inner, &rhs.inner);
    }

    /// In-place [`sub`](Self::sub).
    pub fn sub_assign(&mut self, rhs: &Self)
        requires
            old(self).wf(),
            rhs.wf(),
            old(self).rows() == rhs.rows(),
            old(self).cols() == rhs.cols(),
        ensures
            final(self).wf(),
            final(self).rows() == old(self).rows(),
            final(self).cols() == old(self).cols(),
            forall|i: int, j: int| 0 <= i < old(self).inner.nrows && 0 <= j < old(self).inner.ncols ==>
                vstd::std_specs::ops::sub_ensures::<T>(old(self).inner.at(i, j), rhs.inner.at(i, j), #[trigger] final(self).inner.at(i, j)),
    {
        self.inner = na_sub(&self.inner, &rhs.inner);
    }

    /// The negation; the unit lists are kept.
    pub fn neg(&self) -> (r: Self)
        requires
            self.wf(),
        ensures
            forall|i: int, j: int| 0 <= i < self.inner.nrows && 0 <= j < self.inner.ncols ==>
                vstd::std_specs::ops::neg_ensures::<T>(self.inner.at(i, j), #[trigger] r.inner.at(i, j)),
            r.wf(),
            r.rows() == self.rows(),
            r.cols() == self.cols(),
    {
        MixedUnitMatrix {
            inner: na_neg(&self.inner),
            row_dims: copy_list(&self.row_dims),
            col_dims: copy_list(&self.col_dims),
        }
    }

    /// Multiplies every entry by the quantity `q`. The quantity acts on the
    /// row (output) space: each row unit is multiplied by `q`'s unit, so each
    /// entry unit is multiplied by it.
    pub fn mul_quantity(&self, q: Quantity<T>) -> (r: Self)
        requires
            self.wf(),
            list_operable(self.rows()),
            q.unit.operable(),
        ensures
            forall|i: int, j: int| 0 <= i < self.inner.nrows && 0 <= j < self.inner.ncols ==>
                vstd::std_specs::ops::mul_ensures::<T>(self.inner.at(i, j), q.value, #[trigger] r.inner.at(i, j)),
            r.wf(),
            is_mapped(UnitMap::MulBy(q.unit), self.rows(), r.rows()),
            r.cols() == self.cols(),
            forall|i: int, j: int| 0 <= i < self.rows().len() && 0 <= j < self.cols().len() ==>
                #[trigger] r.unit_at(i, j) == spec_mul(self.unit_at(i, j), q.unit.exps()),
    {
        let f = UnitMap::MulBy(q.unit);
        let r = MixedUnitMatrix {
            inner: na_mul_scalar(&self.inner, q.value),
            row_dims: map_units(&f, &self.row_dims),
            col_dims: copy_list(&self.col_dims),
        };
        proof {
            assert forall|i: int, j: int| 0 <= i < self.rows().len() && 0 <= j < self.cols().len() implies
                #[trigger] r.unit_at(i, j) == spec_mul(self.unit_at(i, j), q.unit.exps()) by {
                lemma_scaled_quotient(self.rows()[i].exps(), self.cols()[j].exps(), q.unit.exps());
            }
        }
        r
    }

    /// Divides every entry by the quantity `q`: each row unit (and so each
    /// entry unit) is divided by `q`'s unit.
    pub fn div_quantity(&self, q: Quantity<T>) -> (r: Self)
        requires
            self.wf(),
            list_operable(self.rows()),
            q.unit.operable(),
        ensures
            forall|i: int, j: int| 0 <= i < self.inner.nrows && 0 <= j < self.inner.ncols ==>
                vstd::std_specs::ops::div_ensures::<T>(self.inner.at(i, j), q.value, #[trigger] r.inner.at(i, j)),
            r.wf(),
            is_mapped(UnitMap::DivBy(q.unit), self.rows(), r.rows()),
            r.cols() == self.cols(),
            forall|i: int, j: int| 0 <= i < self.rows().len() && 0 <= j < self.cols().len() ==>
                #[trigger] r.unit_at(i, j) == spec_div(self.unit_at(i, j), q.unit.exps()),
    {
        let f = UnitMap::DivBy(q.unit);
        let r = MixedUnitMatrix {
            inner: na_div_scalar(&self.inner, q.value),
            row_dims: map_units(&f, &self.row_dims),
            col_dims: copy_list(&self.col_dims),
        };
        proof {
            assert forall|i: int, j: int| 0 <= i < self.rows().len() && 0 <= j < self.cols().len() implies
                #[trigger] r.unit_at(i, j) == spec_div(self.unit_at(i, j), q.unit.exps()) by {
                lemma_scaled_quotient(self.rows()[i].exps(), self.cols()[j].exps(), q.unit.exps());
            }
        }
        r
    }

    /// The conjugate transpose `⟨1 / col_dims, 1 / row_dims⟩`; every entry
    /// keeps its unit.
    pub fn adjoint(&self) -> (r: Self)
        requires
            self.wf(),
            self.units_operable(),
        ensures
            r.wf(),
            is_mapped(UnitMap::Reciprocal, self.cols(), r.rows()),
            is_mapped(UnitMap::Reciprocal, self.rows(), r.cols()),
            forall|i: int, j: int| 0 <= i < self.cols().len() && 0 <= j < self.rows().len() ==> #[trigger] r.unit_at(i, j) == self.unit_at(j, i),
    {
        let f = UnitMap::Reciprocal;
        let r = MixedUnitMatrix {
            inner: na_adjoint(&self.inner),
            row_dims: map_units(&f, &self.col_dims),
            col_dims: map_units(&f, &self.row_dims),
        };
        proof {
            assert forall|i: int, j: int| 0 <= i < self.cols().len() && 0 <= j < self.rows().len() implies #[trigger] r.unit_at(i, j) == self.unit_at(j, i) by {
                lemma_reciprocal_quotient(self.rows()[j].exps(), self.cols()[i].exps());
            }
        }
        r
    }

    /// The Hadamard product of two matrices of one shape: the unit lists
    /// multiply element-wise, and so does every entry unit.
    pub fn component_mul(&self, rhs: &Self) -> (r: Self)
        requires
            self.wf(),
            rhs.wf(),
            self.rows().len() == rhs.rows().len(),
            self.cols().len() == rhs.cols().len(),
            self.units_operable(),
            rhs.units_operable(),
        ensures
            forall|i: int, j: int| 0 <= i < self.inner.nrows && 0 <= j < self.inner.ncols ==>
                vstd::std_specs::ops::mul_ensures::<T>(self.inner.at(i, j), rhs.inner.at(i, j), #[trigger] r.inner.at(i, j)),
            r.wf(),
            is_zip_mul(self.rows(), rhs.rows(), r.rows()),
            is_zip_mul(self.cols(), rhs.cols(), r.cols()),
            forall|i: int, j: int| 0 <= i < self.rows().len() && 0 <= j < self.cols().len() ==>
                #[trigger] r.unit_at(i, j) == spec_mul(self.unit_at(i, j), rhs.unit_at(i, j)),
    {
        let r = MixedUnitMatrix {
            inner: na_component_mul(&self.inner, &rhs.inner),
            row_dims: zip_mul(&self.row_dims, &rhs.row_dims),
            col_dims: zip_mul(&self.col_dims, &rhs.col_dims),
        };
        proof {
            assert forall|i: int, j: int| 0 <= i < self.rows().len() && 0 <= j < self.cols().len() implies
                #[trigger] r.unit_at(i, j) == spec_mul(self.unit_at(i, j), rhs.unit_at(i, j)) by {
                lemma_quotient_mul(self.rows()[i].exps(), self.cols()[j].exps(), rhs.rows()[i].exps(), rhs.cols()[j].exps());
            }
        }
        r
    }

    /// The entry-wise quotient of two matrices of one shape: the unit lists
    /// divide element-wise, and so does every entry unit.
    pub fn component_div(&self, rhs: &Self) -> (r: Self)
        requires
            self.wf(),
            rhs.wf(),
            self.rows().len() == rhs.rows().len(),
            self.cols().len() == rhs.cols().len(),
            self.units_operable(),
            rhs.units_operable(),
        ensures
            forall|i: int, j: int| 0 <= i < self.inner.nrows && 0 <= j < self.inner.ncols ==>
                vstd::std_specs::ops::div_ensures::<T>(self.inner.at(i, j), rhs.inner.at(i, j), #[trigger] r.inner.at(i, j)),
            r.wf(),
            is_zip_div(self.rows(), rhs.rows(), r.rows()),
            is_zip_div(self.cols(), rhs.cols(), r.cols()),
            forall|i: int, j: int| 0 <= i < self.rows().len() && 0 <= j < self.cols().len() ==>
                #[trigger] r.unit_at(i, j) == spec_div(self.unit_at(i, j), rhs.unit_at(i, j)),
    {
        let r = MixedUnitMatrix {
            inner: na_component_div(&self.inner, &rhs.inner),
            row_dims: zip_div(&self.row_dims, &rhs.row_dims),
            col_dims: zip_div(&self.col_dims, &rhs.col_dims),
        };
        proof {
            assert forall|i: int, j: int| 0 <= i < self.rows().len() && 0 <= j < self.cols().len() implies
                #[trigger] r.unit_at(i, j) == spec_div(self.unit_at(i, j), rhs.unit_at(i, j)) by {
                lemma_quotient_div(self.rows()[i].exps(), self.cols()[j].exps(), rhs.rows()[i].exps(), rhs.cols()[j].exps());
            }
        }
        r
    }

    /// The Kronecker product: row `i1 · m + i2` carries
    /// `row_dims[i1] · rhs.row_dims[i2]`, column `j1 · n + j2` carries
    /// `col_dims[j1] · rhs.col_dims[j2]`, and entry
    /// `(i1 · m + i2, j1 · n + j2)` has the product of the two entry units.
    pub fn kronecker(&self, rhs: &Self) -> (r: Self)
        requires
            self.wf(),
            rhs.wf(),
            self.units_operable(),
            rhs.units_operable(),
            self.rows().len() * rhs.rows().len() <= usize::MAX,
            self.cols().len() * rhs.cols().len() <= usize::MAX,
            self.rows().len() * rhs.rows().len() * (self.cols().len() * rhs.cols().len()) <= usize::MAX,
        ensures
            r.wf(),
            r.rows().len() == self.rows().len() * rhs.rows().len(),
            r.cols().len() == self.cols().len() * rhs.cols().len(),
            forall|i1: int, i2: int| 0 <= i1 < self.rows().len() && 0 <= i2 < rhs.rows().len() ==>
                #[trigger] r.rows()[i1 * rhs.rows().len() + i2].exps() == spec_mul(self.rows()[i1].exps(), rhs.rows()[i2].exps()),
            forall|j1: int, j2: int| 0 <= j1 < self.cols().len() && 0 <= j2 < rhs.cols().len() ==>
                #[trigger] r.cols()[j1 * rhs.cols().len() + j2].exps() == spec_mul(self.cols()[j1].exps(), rhs.cols()[j2].exps()),
            forall|i1: int, i2: int, j1: int, j2: int|
                0 <= i1 < self.rows().len() && 0 <= i2 < rhs.rows().len() && 0 <= j1 < self.cols().len() && 0 <= j2 < rhs.cols().len() ==>
                    #[trigger] r.unit_at(i1 * rhs.rows().len() + i2, j1 * rhs.cols().len() + j2)
                        == spec_mul(self.unit_at(i1, j1), rhs.unit_at(i2, j2)),
    {
        let r = MixedUnitMatrix {
            inner: na_kronecker(&self.inner, &rhs.inner),
            row_dims: cross_mul(&self.row_dims, &rhs.row_dims),
            col_dims: cross_mul(&self.col_dims, &rhs.col_dims),
        };
        proof {
            assert forall|i1: int, i2: int, j1: int, j2: int|
                0 <= i1 < self.rows().len() && 0 <= i2 < rhs.rows().len() && 0 <= j1 < self.cols().len() && 0 <= j2 < rhs.cols().len() implies
                    #[trigger] r.unit_at(i1 * rhs.rows().len() + i2, j1 * rhs.cols().len() + j2)
                        == spec_mul(self.unit_at(i1, j1), rhs.unit_at(i2, j2)) by {
                assert(r.rows()[i1 * rhs.rows().len() + i2].exps() == spec_mul(self.rows()[i1].exps(), rhs.rows()[i2].exps()));
                assert(r.cols()[j1 * rhs.cols().len() + j2].exps() == spec_mul(self.cols()[j1].exps(), rhs.cols()[j2].exps()));
                lemma_quotient_mul(self.rows()[i1].exps(), self.cols()[j1].exps(), rhs.rows()[i2].exps(), rhs.cols()[j2].exps());
            }
        }
        r
    }

    /// `selfᵀ · rhs` without forming the transpose: `rhs`'s row units must be
    /// the reciprocals of `self`'s, and the result is
    /// `⟨1 / col_dims, rhs.col_dims⟩`.
    pub fn tr_mul(&self, rhs: &Self) -> (r: Self)
        requires
            self.wf(),
            rhs.wf(),
            self.units_operable(),
            is_mapped(UnitMap::Reciprocal, self.rows(), rhs.rows()),
        ensures
            r.wf(),
            is_mapped(UnitMap::Reciprocal, self.cols(), r.rows()),
            r.cols() == rhs.cols(),
    {
        let f = UnitMap::Reciprocal;
        MixedUnitMatrix {
            inner: na_tr_mul(&self.inner, &rhs.inner),
            row_dims: map_units(&f, &self.col_dims),
            col_dims: copy_list(&rhs.col_dims),
        }
    }

    /// `selfᴴ · rhs` without forming the adjoint; the unit rule of
    /// [`tr_mul`](Self::tr_mul).
    pub fn ad_mul(&self, rhs: &Self) -> (r: Self)
        requires
            self.wf(),
            rhs.wf(),
            self.units_operable(),
            is_mapped(UnitMap::Reciprocal, self.rows(), rhs.rows()),
        ensures
            r.wf(),
            is_mapped(UnitMap::Reciprocal, self.cols(), r.rows()),
            r.cols() == rhs.cols(),
    {
        let f = UnitMap::Reciprocal;
        MixedUnitMatrix {
            inner: na_ad_mul(&self.inner, &rhs.inner),
            row_dims: map_units(&f, &self.col_dims),
            col_dims: copy_list(&rhs.col_dims),
        }
    }

    /// The trace of a square matrix whose diagonal entries all share one
    /// unit, as a quantity of that unit.
    pub fn trace(&self) -> (r: Quantity<T>)
        requires
            self.wf(),
            self.units_operable(),
            self.rows().len() == self.cols().len(),
            self.rows().len() > 0,
            forall|i: int| 0 <= i < self.rows().len() ==> #[trigger] self.unit_at(i, i) == self.unit_at(0, 0),
        ensures
            r.unit.exps() == self.unit_at(0, 0),
    {
        let u = match uniform_diag(&self.row_dims, &self.col_dims) {
            Some(u) => u,
            None => {
                proof {
                    assert forall|i: int| 0 <= i < self.rows().len() implies spec_div(#[trigger] self.rows()[i].exps(), self.cols()[i].exps())
                        == spec_div(self.rows()[0].exps(), self.cols()[0].exps()) by {
                        assert(self.unit_at(i, i) == self.unit_at(0, 0));
                    }
                }
                self.row_dims[0].div(&self.col_dims[0])
            },
        };
        Quantity { value: na_trace(&self.inner), unit: u }
    }

    /// The integer power `selfᵏ` of an endomorphism (row units equal to
    /// column units); the unit lists are kept.
    pub fn pow(&self, k: u32) -> (r: Self)
        requires
            self.wf(),
            self.rows() == self.cols(),
        ensures
            r.wf(),
            r.rows() == self.rows(),
            r.cols() == self.cols(),
            k == 0 ==> exists|z: T, o: T| identity_pattern(r.inner, z, o),
            k == 1 ==> r.inner.data@ == self.inner.data@,
    {
        let inner = na_pow(&self.inner, k);
        let r = MixedUnitMatrix { inner, row_dims: copy_list(&self.row_dims), col_dims: copy_list(&self.col_dims) };
        proof {
            if k == 0 {
                let (z, o) = choose|z: T, o: T| identity_pattern(inner, z, o);
                assert(identity_pattern(r.inner, z, o));
            }
        }
        r
    }
}

impl<T: nalgebra::RealField + Copy> MixedUnitMatrix<T> {
    /// Every entry multiplied by the dimensionless real `factor`; the unit
    /// lists are kept.
    pub fn scale(&self, factor: T) -> (r: Self)
        requires
            self.wf(),
        ensures
            r.wf(),
            r.rows() == self.rows(),
            r.cols() == self.cols(),
            forall|i: int, j: int| 0 <= i < self.inner.nrows && 0 <= j < self.inner.ncols ==>
                vstd::std_specs::ops::mul_ensures::<T>(self.inner.at(i, j), factor, #[trigger] r.inner.at(i, j)),
    {
        MixedUnitMatrix {
            inner: na_scale(&self.inner, factor),
            row_dims: copy_list(&self.row_dims),
            col_dims: copy_list(&self.col_dims),
        }
    }

    /// Every entry divided by the dimensionless real `factor`; the unit lists
    /// are kept.
    pub fn unscale(&self, factor: T) -> (r: Self)
        requires
            self.wf(),
        ensures
            r.wf(),
            r.rows() == self.rows(),
            r.cols() == self.cols(),
            forall|i: int, j: int| 0 <= i < self.inner.nrows && 0 <= j < self.inner.ncols ==>
                vstd::std_specs::ops::div_ensures::<T>(self.inner.at(i, j), factor, #[trigger] r.inner.at(i, j)),
    {
        MixedUnitMatrix {
            inner: na_unscale(&self.inner, factor),
            row_dims: copy_list(&self.row_dims),
            col_dims: copy_list(&self.col_dims),
        }
    }

    /// In-place [`scale`](Self::scale).
    pub fn scale_mut(&mut self, factor: T)
        requires
            old(self).wf(),
        ensures
            final(self).wf(),
            final(self).rows() == old(self).rows(),
            final(self).cols() == old(self).cols(),
            forall|i: int, j: int| 0 <= i < old(self).inner.nrows && 0 <= j < old(self).inner.ncols ==>
                vstd::std_specs::ops::mul_ensures::<T>(old(self).inner.at(i, j), factor, #[trigger] final(self).inner.at(i, j)),
    {
        self.inner = na_scale(&self.inner, factor);
    }

    /// In-place [`unscale`](Self::unscale).
    pub fn unscale_mut(&mut self, factor: T)
        requires
            old(self).wf(),
        ensures
            final(self).wf(),
            final(self).rows() == old(self).rows(),
            final(self).cols() == old(self).cols(),
            forall|i: int, j: int| 0 <= i < old(self).inner.nrows && 0 <= j < old(self).inner.ncols ==>
                vstd::std_specs::ops::div_ensures::<T>(old(self).inner.at(i, j), factor, #[trigger] final(self).inner.at(i, j)),
    {
        self.inner = na_unscale(&self.inner, factor);
    }
}

} // verus!
