//! Uniform-unit matrices: every entry carries one shared unit.
//!
//! A [`UniformUnitMatrix`] is the lighter twin of a mixed matrix whose row
//! units and column units are each a single repeated unit. With one unit for
//! every entry, bulk construction, runtime indexing and the entry-wise
//! reductions are unit-safe, and each operation's result unit is one product,
//! quotient or power of the operands' units.

use vstd::prelude::*;
use crate::dims::{product, product_defined, repeat, spec_is_uniform, spec_product};
use crate::matrix::MixedUnitMatrix;
use crate::quantity::Quantity;
use crate::raw::RawMatrix;
use crate::unit::{spec_div, spec_one, Unit};

verus! {

/// A matrix whose entries all carry the single unit `unit`.
#[derive(Clone, Debug)]
pub struct UniformUnitMatrix<T> {
    pub inner: RawMatrix<T>,
    pub unit: Unit,
}

/// The list of `n` copies of `u`, whose product is the power `uⁿ`.
pub open spec fn repeated(u: Unit, n: nat) -> Seq<Unit> {
    Seq::new(n, |i: int| u)
}

/// Wraps an optional backend result with a unit: `None` stays `None`.
pub fn with_unit<T>(raw: Option<RawMatrix<T>>, unit: Unit) -> (r: Option<UniformUnitMatrix<T>>)
    ensures
        r is Some <==> raw is Some,
        r matches Some(m) ==> raw == Some(m.inner) && m.unit == unit,
{
    match raw {
        Some(inner) => Some(UniformUnitMatrix { inner, unit }),
        None => None,
    }
}

/// The power `uⁿ`, formed as the product of `n` copies of `u`.
pub fn unit_pow(u: &Unit, n: usize) -> (r: Unit)
    requires
        product_defined(repeated(*u, n as nat)),
    ensures
        r.exps() == spec_product(repeated(*u, n as nat)),
{
    let l = repeat(u, n);
    assert(l@ =~= repeated(*u, n as nat));
    product(&l)
}

impl<T> UniformUnitMatrix<T> {
    /// The storage is well formed.
    pub open spec fn wf(&self) -> bool {
        self.inner.wf()
    }

    /// Wraps storage with a unit.
    pub fn from_nalgebra(inner: RawMatrix<T>, unit: Unit) -> (r: Self)
        ensures
            r.inner == inner,
            r.unit == unit,
    {
        UniformUnitMatrix { inner, unit }
    }

    /// Consumes the matrix, returning its storage.
    pub fn into_nalgebra(self) -> (r: RawMatrix<T>)
        ensures
            r == self.inner,
    {
        self.inner
    }

    /// Borrows the storage.
    pub fn nalgebra(&self) -> (r: &RawMatrix<T>)
        ensures
            *r == self.inner,
    {
        &self.inner
    }

    /// The `(rows, cols)` shape.
    pub fn shape(&self) -> (r: (usize, usize))
        ensures
            r == (self.inner.nrows, self.inner.ncols),
    {
        (self.inner.nrows, self.inner.ncols)
    }

    /// The number of rows.
    pub fn nrows(&self) -> (r: usize)
        ensures
            r == self.inner.nrows,
    {
        self.inner.nrows
    }

    /// The number of columns.
    pub fn ncols(&self) -> (r: usize)
        ensures
            r == self.inner.ncols,
    {
        self.inner.ncols
    }

    /// The number of entries.
    pub fn len(&self) -> (r: usize)
        requires
            self.wf(),
        ensures
            r == self.inner.nrows * self.inner.ncols,
    {
        self.inner.data.len()
    }

    /// Whether the matrix has no entries.
    pub fn is_empty(&self) -> (r: bool)
        requires
            self.wf(),
        ensures
            r == (self.inner.nrows * self.inner.ncols == 0),
    {
        self.inner.data.len() == 0
    }

    /// Whether the matrix is square.
    pub fn is_square(&self) -> (r: bool)
        ensures
            r == (self.inner.nrows == self.inner.ncols),
    {
        self.inner.nrows == self.inner.ncols
    }

    /// The entries in storage (column-major) order.
    pub fn as_raw_slice(&self) -> (r: &[T])
        ensures
            r@ == self.inner.data@,
    {
        self.inner.data.as_slice()
    }

    /// Gives the matrix the row units `row_dims` and column units `col_dims`,
    /// each a single repeated unit whose quotient is this matrix's unit; the
    /// storage is moved. Every entry of the result has this matrix's unit.
    pub fn gauge(self, row_dims: Vec<Unit>, col_dims: Vec<Unit>) -> (r: MixedUnitMatrix<T>)
        requires
            self.wf(),
            self.inner.nrows == row_dims.len(),
            self.inner.ncols == col_dims.len(),
            row_dims.len() > 0,
            col_dims.len() > 0,
            spec_is_uniform(row_dims@),
            spec_is_uniform(col_dims@),
            spec_div(row_dims@[0].exps(), col_dims@[0].exps()) == self.unit.exps(),
        ensures
            r.wf(),
            r.inner == self.inner,
            r.rows() == row_dims@,
            r.cols() == col_dims@,
            forall|i: int, j: int| 0 <= i < row_dims.len() && 0 <= j < col_dims.len() ==> #[trigger] r.unit_at(i, j) == self.unit.exps(),
    {
        let r = MixedUnitMatrix { inner: self.inner, row_dims, col_dims };
        proof {
            assert forall|i: int, j: int| 0 <= i < r.rows().len() && 0 <= j < r.cols().len() implies #[trigger] r.unit_at(i, j) == self.unit.exps() by {
                assert(r.rows()[i] == r.rows()[0]);
                assert(r.cols()[j] == r.cols()[0]);
            }
        }
        r
    }

    /// Gives the matrix the uniform row units `[row_unit; nrows]` and column
    /// units `[col_unit; ncols]`, whose quotient must be this matrix's unit.
    pub fn into_mixed(self, row_unit: Unit, col_unit: Unit) -> (r: MixedUnitMatrix<T>)
        requires
            self.wf(),
            spec_div(row_unit.exps(), col_unit.exps()) == self.unit.exps(),
        ensures
            r.wf(),
            r.inner == self.inner,
            r.rows() == repeated(row_unit, self.inner.nrows as nat),
            r.cols() == repeated(col_unit, self.inner.ncols as nat),
            forall|i: int, j: int| 0 <= i < self.inner.nrows && 0 <= j < self.inner.ncols ==> #[trigger] r.unit_at(i, j) == self.unit.exps(),
    {
        let rows = repeat(&row_unit, self.inner.nrows);
        let cols = repeat(&col_unit, self.inner.ncols);
        MixedUnitMatrix { inner: self.inner, row_dims: rows, col_dims: cols }
    }
}

impl<T> Default for UniformUnitMatrix<T> {
    /// The empty `0 × 0` matrix, dimensionless.
    fn default() -> (r: Self)
        ensures
            r.wf(),
            r.inner.nrows == 0,
            r.inner.ncols == 0,
            r.unit.exps() == spec_one(),
    {
        let data: Vec<T> = Vec::new();
        assert(data.len() == 0 * 0);
        UniformUnitMatrix { inner: RawMatrix { nrows: 0, ncols: 0, data }, unit: Unit::dimensionless() }
    }
}

impl<T: Copy> UniformUnitMatrix<T> {
    /// [`into_mixed`](Self::into_mixed) on a copy, leaving `self` intact.
    pub fn to_mixed(&self, row_unit: Unit, col_unit: Unit) -> (r: MixedUnitMatrix<T>)
        requires
            self.wf(),
            spec_div(row_unit.exps(), col_unit.exps()) == self.unit.exps(),
        ensures
            r.wf(),
            r.inner.nrows == self.inner.nrows,
            r.inner.ncols == self.inner.ncols,
            r.inner.data@ == self.inner.data@,
            r.rows() == repeated(row_unit, self.inner.nrows as nat),
            r.cols() == repeated(col_unit, self.inner.ncols as nat),
    {
        let copy = UniformUnitMatrix { inner: self.inner.copy(), unit: self.unit };
        copy.into_mixed(row_unit, col_unit)
    }

    /// The `nrows × ncols` matrix of unit `unit` whose entries are `data`,
    /// row by row.
    pub fn from_row_slice(nrows: usize, ncols: usize, data: &[T], unit: Unit) -> (r: Self)
        requires
            data@.len() == nrows * ncols,
            nrows * ncols <= usize::MAX,
        ensures
            r.wf(),
            r.unit == unit,
            r.inner.nrows == nrows,
            r.inner.ncols == ncols,
            forall|i: int, j: int| 0 <= i < nrows && 0 <= j < ncols ==> #[trigger] r.inner.at(i, j) == data@[i * ncols + j],
    {
        UniformUnitMatrix { inner: RawMatrix::from_row_slice(nrows, ncols, data), unit }
    }

    /// The `nrows × ncols` matrix of unit `unit` whose entries are `data`,
    /// column by column.
    pub fn from_column_slice(nrows: usize, ncols: usize, data: &[T], unit: Unit) -> (r: Self)
        requires
            data@.len() == nrows * ncols,
        ensures
            r.wf(),
            r.unit == unit,
            r.inner.nrows == nrows,
            r.inner.ncols == ncols,
            r.inner.data@ == data@,
    {
        UniformUnitMatrix { inner: RawMatrix::from_column_slice(nrows, ncols, data), unit }
    }

    /// The `nrows × ncols` matrix of unit `unit` taking ownership of `data`,
    /// column by column.
    pub fn from_vec(nrows: usize, ncols: usize, data: Vec<T>, unit: Unit) -> (r: Self)
        requires
            data.len() == nrows * ncols,
        ensures
            r.wf(),
            r.unit == unit,
            r.inner.nrows == nrows,
            r.inner.ncols == ncols,
            r.inner.data@ == data@,
    {
        UniformUnitMatrix { inner: RawMatrix { nrows, ncols, data }, unit }
    }

    /// The `nrows × ncols` matrix of unit `unit` filled, column by column,
    /// from the first `nrows · ncols` items (there must be that many).
    pub fn from_iterator(nrows: usize, ncols: usize, items: Vec<T>, unit: Unit) -> (r: Self)
        requires
            items.len() >= nrows * ncols,
        ensures
            r.wf(),
            r.unit == unit,
            r.inner.nrows == nrows,
            r.inner.ncols == ncols,
            r.inner.data@ == items@.subrange(0, nrows * ncols),
    {
        let n = nrows * ncols;
        let mut data: Vec<T> = Vec::new();
        let mut k: usize = 0;
        while k < n
            invariant
                k <= n,
                n == nrows * ncols,
                items.len() >= n,
                data@ == items@.subrange(0, k as int),
            decreases n - k,
        {
            data.push(items[k]);
            k += 1;
            assert(data@ =~= items@.subrange(0, k as int));
        }
        UniformUnitMatrix { inner: RawMatrix { nrows, ncols, data }, unit }
    }

    /// The `nrows × ncols` matrix every entry of which is `value`.
    pub fn from_element(nrows: usize, ncols: usize, value: Quantity<T>) -> (r: Self)
        requires
            nrows * ncols <= usize::MAX,
        ensures
            r.wf(),
            r.unit == value.unit,
            r.inner.nrows == nrows,
            r.inner.ncols == ncols,
            forall|i: int, j: int| 0 <= i < nrows && 0 <= j < ncols ==> #[trigger] r.inner.at(i, j) == value.value,
    {
        let n = nrows * ncols;
        let mut data: Vec<T> = Vec::new();
        let mut k: usize = 0;
        while k < n
            invariant
                k <= n,
                data@ == Seq::new(k as nat, |p: int| value.value),
            decreases n - k,
        {
            data.push(value.value);
            k += 1;
            assert(data@ =~= Seq::new(k as nat, |p: int| value.value));
        }
        let r = UniformUnitMatrix { inner: RawMatrix { nrows, ncols, data }, unit: value.unit };
        proof {
            assert forall|i: int, j: int| 0 <= i < nrows && 0 <= j < ncols implies #[trigger] r.inner.at(i, j) == value.value by {
                crate::raw::lemma_cm_bounds(i, j, nrows as int, ncols as int);
            }
        }
        r
    }

    /// Concatenates columns side by side: each is `nrows × 1` with this
    /// unit, and column `j` of the result is `columns[j]`.
    pub fn from_columns(columns: &Vec<UniformUnitMatrix<T>>) -> (r: Self)
        requires
            columns.len() > 0,
            forall|k: int| 0 <= k < columns.len() ==> (#[trigger] columns@[k]).wf() && columns@[k].inner.ncols == 1
                && columns@[k].inner.nrows == columns@[0].inner.nrows && columns@[k].unit == columns@[0].unit,
            columns@[0].inner.nrows * columns.len() <= usize::MAX,
        ensures
            r.wf(),
            r.unit == columns@[0].unit,
            r.inner.nrows == columns@[0].inner.nrows,
            r.inner.ncols == columns.len(),
            forall|i: int, j: int| 0 <= i < r.inner.nrows && 0 <= j < r.inner.ncols ==> #[trigger] r.inner.at(i, j) == columns@[j].inner.at(i, 0),
    {
        let n = columns[0].inner.nrows;
        let m = columns.len();
        let f = |i: usize, j: usize| -> (v: T)
            requires
                i < n,
                j < m,
            ensures
                v == columns@[j as int].inner.at(i as int, 0),
            {
                *columns[j].inner.get(i, 0)
            };
        let inner = crate::raw::from_fn(n, m, f, Ghost(|i: int, j: int| columns@[j].inner.at(i, 0)));
        UniformUnitMatrix { inner, unit: columns[0].unit }
    }

    /// Stacks rows: each is `1 × ncols` with this unit, and row `i` of the
    /// result is `rows[i]`.
    pub fn from_rows(rows: &Vec<UniformUnitMatrix<T>>) -> (r: Self)
        requires
            rows.len() > 0,
            forall|k: int| 0 <= k < rows.len() ==> (#[trigger] rows@[k]).wf() && rows@[k].inner.nrows == 1
                && rows@[k].inner.ncols == rows@[0].inner.ncols && rows@[k].unit == rows@[0].unit,
            rows.len() * rows@[0].inner.ncols <= usize::MAX,
        ensures
            r.wf(),
            r.unit == rows@[0].unit,
            r.inner.nrows == rows.len(),
            r.inner.ncols == rows@[0].inner.ncols,
            forall|i: int, j: int| 0 <= i < r.inner.nrows && 0 <= j < r.inner.ncols ==> #[trigger] r.inner.at(i, j) == rows@[i].inner.at(0, j),
    {
        let n = rows.len();
        let m = rows[0].inner.ncols;
        let f = |i: usize, j: usize| -> (v: T)
            requires
                i < n,
                j < m,
            ensures
                v == rows@[i as int].inner.at(0, j as int),
            {
                *rows[i].inner.get(0, j)
            };
        let inner = crate::raw::from_fn(n, m, f, Ghost(|i: int, j: int| rows@[i].inner.at(0, j)));
        UniformUnitMatrix { inner, unit: rows[0].unit }
    }

    /// `[self | right]` for two matrices of one unit and row count.
    pub fn hcat(&self, right: &Self) -> (r: Self)
        requires
            self.wf(),
            right.wf(),
            self.unit == right.unit,
            self.inner.nrows == right.inner.nrows,
            self.inner.ncols + right.inner.ncols <= usize::MAX,
            self.inner.nrows * (self.inner.ncols + right.inner.ncols) <= usize::MAX,
        ensures
            r.wf(),
            r.unit == self.unit,
            r.inner.nrows == self.inner.nrows,
            r.inner.ncols == self.inner.ncols + right.inner.ncols,
            forall|i: int, j: int| 0 <= i < self.inner.nrows && 0 <= j < self.inner.ncols ==> #[trigger] r.inner.at(i, j) == self.inner.at(i, j),
            forall|i: int, j: int| 0 <= i < self.inner.nrows && 0 <= j < right.inner.ncols ==> #[trigger] r.inner.at(i, self.inner.ncols + j) == right.inner.at(i, j),
    {
        UniformUnitMatrix { inner: self.inner.hcat(&right.inner), unit: self.unit }
    }

    /// `[self; below]` for two matrices of one unit and column count.
    pub fn vcat(&self, below: &Self) -> (r: Self)
        requires
            self.wf(),
            below.wf(),
            self.unit == below.unit,
            self.inner.ncols == below.inner.ncols,
            self.inner.nrows + below.inner.nrows <= usize::MAX,
            (self.inner.nrows + below.inner.nrows) * self.inner.ncols <= usize::MAX,
        ensures
            r.wf(),
            r.unit == self.unit,
            r.inner.nrows == self.inner.nrows + below.inner.nrows,
            r.inner.ncols == self.inner.ncols,
            forall|i: int, j: int| 0 <= i < self.inner.nrows && 0 <= j < self.inner.ncols ==> #[trigger] r.inner.at(i, j) == self.inner.at(i, j),
            forall|i: int, j: int| 0 <= i < below.inner.nrows && 0 <= j < self.inner.ncols ==> #[trigger] r.inner.at(self.inner.nrows + i, j) == below.inner.at(i, j),
    {
        UniformUnitMatrix { inner: self.inner.vcat(&below.inner), unit: self.unit }
    }

    /// Entry `(i, j)` as a quantity of the matrix's unit.
    pub fn get(&self, i: usize, j: usize) -> (r: Quantity<T>)
        requires
            self.wf(),
            i < self.inner.nrows,
            j < self.inner.ncols,
        ensures
            r.value == self.inner.at(i as int, j as int),
            r.unit == self.unit,
    {
        Quantity { value: *self.inner.get(i, j), unit: self.unit }
    }

    /// Writes `value`, a quantity of the matrix's unit, at `(i, j)`.
    pub fn set(&mut self, i: usize, j: usize, value: Quantity<T>)
        requires
            old(self).wf(),
            i < old(self).inner.nrows,
            j < old(self).inner.ncols,
            value.unit == old(self).unit,
        ensures
            final(self).wf(),
            final(self).unit == old(self).unit,
            final(self).inner.nrows == old(self).inner.nrows,
            final(self).inner.ncols == old(self).inner.ncols,
            forall|p: int, q: int| 0 <= p < old(self).inner.nrows && 0 <= q < old(self).inner.ncols ==>
                #[trigger] final(self).inner.at(p, q) == (if p == i && q == j { value.value } else { old(self).inner.at(p, q) }),
    {
        self.inner.set(i, j, value.value);
    }

    /// Exchanges rows `a` and `b`.
    pub fn swap_rows(&mut self, a: usize, b: usize)
        requires
            old(self).wf(),
            a < old(self).inner.nrows,
            b < old(self).inner.nrows,
        ensures
            final(self).wf(),
            final(self).unit == old(self).unit,
            final(self).inner.nrows == old(self).inner.nrows,
            final(self).inner.ncols == old(self).inner.ncols,
            forall|i: int, j: int| 0 <= i < old(self).inner.nrows && 0 <= j < old(self).inner.ncols ==>
                #[trigger] final(self).inner.at(i, j) == old(self).inner.at(
                    if i == a { b as int } else if i == b { a as int } else { i }, j),
    {
        self.inner.swap_rows(a, b);
    }

    /// Exchanges columns `a` and `b`.
    pub fn swap_columns(&mut self, a: usize, b: usize)
        requires
            old(self).wf(),
            a < old(self).inner.ncols,
            b < old(self).inner.ncols,
        ensures
            final(self).wf(),
            final(self).unit == old(self).unit,
            final(self).inner.nrows == old(self).inner.nrows,
            final(self).inner.ncols == old(self).inner.ncols,
            forall|i: int, j: int| 0 <= i < old(self).inner.nrows && 0 <= j < old(self).inner.ncols ==>
                #[trigger] final(self).inner.at(i, j) == old(self).inner.at(
                    i, if j == a { b as int } else if j == b { a as int } else { j }),
    {
        self.inner.swap_columns(a, b);
    }

    /// The transpose; the unit is kept.
    pub fn transpose(&self) -> (r: Self)
        requires
            self.wf(),
        ensures
            r.wf(),
            r.unit == self.unit,
            r.inner.nrows == self.inner.ncols,
            r.inner.ncols == self.inner.nrows,
            forall|i: int, j: int| 0 <= i < r.inner.nrows && 0 <= j < r.inner.ncols ==> #[trigger] r.inner.at(i, j) == self.inner.at(j, i),
    {
        UniformUnitMatrix { inner: self.inner.transpose(), unit: self.unit }
    }
}

} // verus!
