//! Mixed-unit matrices.
//!
//! A [`MixedUnitMatrix`] carries a list of row units and a list of column
//! units next to its numbers; entry `(i, j)` has the unit
//! `row_dims[i] / col_dims[j]`. The lists are only determined up to a common
//! factor (the *gauge*): dividing both lists by the same unit leaves every
//! entry unit unchanged, which the regauging methods exploit.

use vstd::prelude::*;
use crate::backend::{na_one, na_zero};
use crate::dims::{
    collapse_uniform, concat, copy_list, is_mapped, is_zip_div, list_operable, map_units,
    repeat, sliced, spec_is_uniform, zip_div, UnitMap,
};
use crate::quantity::Quantity;
use crate::raw::RawMatrix;
use crate::uniform::UniformUnitMatrix;
use crate::unit::{spec_div, spec_one, Unit};

verus! {

/// A matrix whose entry `(i, j)` carries the unit `row_dims[i] / col_dims[j]`.
#[derive(Clone, Debug)]
pub struct MixedUnitMatrix<T> {
    pub inner: RawMatrix<T>,
    pub row_dims: Vec<Unit>,
    pub col_dims: Vec<Unit>,
}

/// The exponents of the unit of entry `(i, j)` of a matrix with row units
/// `rows` and column units `cols`.
pub open spec fn entry_unit(rows: Seq<Unit>, cols: Seq<Unit>, i: int, j: int) -> Seq<int> {
    spec_div(rows[i].exps(), cols[j].exps())
}

/// Dividing both units of a quotient by the same unit leaves the quotient
/// unchanged.
pub proof fn lemma_div_regauge(a: Seq<int>, b: Seq<int>, d: Seq<int>)
    ensures
        spec_div(spec_div(a, d), spec_div(b, d)) == spec_div(a, b),
{
    assert(spec_div(spec_div(a, d), spec_div(b, d)) =~= spec_div(a, b));
}

impl<T> MixedUnitMatrix<T> {
    /// The storage is well formed and its shape matches the unit lists.
    pub open spec fn wf(&self) -> bool {
        &&& self.inner.wf()
        &&& self.inner.nrows == self.row_dims.len()
        &&& self.inner.ncols == self.col_dims.len()
    }

    /// The row units.
    pub open spec fn rows(&self) -> Seq<Unit> {
        self.row_dims@
    }

    /// The column units.
    pub open spec fn cols(&self) -> Seq<Unit> {
        self.col_dims@
    }

    /// The exponents of the unit of entry `(i, j)`.
    pub open spec fn unit_at(&self, i: int, j: int) -> Seq<int> {
        entry_unit(self.rows(), self.cols(), i, j)
    }

    /// Every row and column unit lies in the operating range of the unit
    /// algebra.
    pub open spec fn units_operable(&self) -> bool {
        &&& list_operable(self.rows())
        &&& list_operable(self.cols())
    }

    /// Wraps storage and unit lists without checking that they fit together;
    /// the result is well formed exactly when they do.
    pub fn from_nalgebra(inner: RawMatrix<T>, row_dims: Vec<Unit>, col_dims: Vec<Unit>) -> (r: Self)
        ensures
            r.inner == inner,
            r.rows() == row_dims@,
            r.cols() == col_dims@,
            r.wf() == (inner.wf() && inner.nrows == row_dims.len() && inner.ncols == col_dims.len()),
    {
        MixedUnitMatrix { inner, row_dims, col_dims }
    }

    /// Consumes the matrix, returning its storage.
    pub fn into_nalgebra(self) -> (r: RawMatrix<T>)
        ensures
            r == self.inner,
    {
        self.inner
    }

    /// Borrows the storage.
    pub fn nalgebra(&self) -> (r: &RawMatrix<T>)
        ensures
            *r == self.inner,
    {
        &self.inner
    }

    /// Wraps storage whose shape matches the unit lists.
    pub fn new(inner: RawMatrix<T>, row_dims: Vec<Unit>, col_dims: Vec<Unit>) -> (r: Self)
        requires
            inner.wf(),
            inner.nrows == row_dims.len(),
            inner.ncols == col_dims.len(),
        ensures
            r.wf(),
            r.inner == inner,
            r.rows() == row_dims@,
            r.cols() == col_dims@,
    {
        MixedUnitMatrix { inner, row_dims, col_dims }
    }

    /// The `(rows, cols)` shape.
    pub fn shape(&self) -> (r: (usize, usize))
        requires
            self.wf(),
        ensures
            r.0 == self.rows().len(),
            r.1 == self.cols().len(),
    {
        (self.inner.nrows, self.inner.ncols)
    }

    /// The number of rows.
    pub fn nrows(&self) -> (r: usize)
        requires
            self.wf(),
        ensures
            r == self.rows().len(),
    {
        self.inner.nrows
    }

    /// The number of columns.
    pub fn ncols(&self) -> (r: usize)
        requires
            self.wf(),
        ensures
            r == self.cols().len(),
    {
        self.inner.ncols
    }

    /// The number of entries, `nrows · ncols`.
    pub fn len(&self) -> (r: usize)
        requires
            self.wf(),
        ensures
            r == self.rows().len() * self.cols().len(),
    {
        self.inner.data.len()
    }

    /// Whether the matrix has no entries.
    pub fn is_empty(&self) -> (r: bool)
        requires
            self.wf(),
        ensures
            r == (self.rows().len() * self.cols().len() == 0),
    {
        self.inner.data.len() == 0
    }

    /// Whether the matrix is square.
    pub fn is_square(&self) -> (r: bool)
        requires
            self.wf(),
        ensures
            r == (self.rows().len() == self.cols().len()),
    {
        self.inner.nrows == self.inner.ncols
    }
}

impl<T> Default for MixedUnitMatrix<T> {
    /// The empty `0 × 0` matrix, with empty unit lists.
    fn default() -> (r: Self)
        ensures
            r.wf(),
            r.rows().len() == 0,
            r.cols().len() == 0,
    {
        MixedUnitMatrix { inner: RawMatrix { nrows: 0, ncols: 0, data: Vec::new() }, row_dims: Vec::new(), col_dims: Vec::new() }
    }
}

impl<T: Copy> MixedUnitMatrix<T> {
    /// Copies storage of any provenance into a matrix with the given unit
    /// lists; the storage's shape must match them.
    pub fn from_dyn(inner: &RawMatrix<T>, row_dims: Vec<Unit>, col_dims: Vec<Unit>) -> (r: Self)
        requires
            inner.wf(),
            inner.nrows == row_dims.len(),
            inner.ncols == col_dims.len(),
        ensures
            r.wf(),
            r.inner.nrows == inner.nrows,
            r.inner.ncols == inner.ncols,
            r.inner.data@ == inner.data@,
            r.rows() == row_dims@,
            r.cols() == col_dims@,
    {
        MixedUnitMatrix { inner: inner.copy(), row_dims, col_dims }
    }

    /// The unit of entry `(i, j)`, `row_dims[i] / col_dims[j]`.
    pub fn entry_unit(&self, i: usize, j: usize) -> (r: Unit)
        requires
            self.wf(),
            i < self.rows().len(),
            j < self.cols().len(),
            self.rows()[i as int].operable(),
            self.cols()[j as int].operable(),
        ensures
            r.exps() == self.unit_at(i as int, j as int),
    {
        self.row_dims[i].div(&self.col_dims[j])
    }

    /// Entry `(i, j)` as a quantity of unit `row_dims[i] / col_dims[j]`.
    pub fn get(&self, i: usize, j: usize) -> (r: Quantity<T>)
        requires
            self.wf(),
            i < self.rows().len(),
            j < self.cols().len(),
            self.rows()[i as int].operable(),
            self.cols()[j as int].operable(),
        ensures
            r.value == self.inner.at(i as int, j as int),
            r.unit.exps() == self.unit_at(i as int, j as int),
    {
        let unit = self.entry_unit(i, j);
        Quantity { value: *self.inner.get(i, j), unit }
    }

    /// Writes `entry` into position `(i, j)`; the entry's unit must be the
    /// position's unit.
    pub fn set(&mut self, i: usize, j: usize, entry: Quantity<T>)
        requires
            old(self).wf(),
            i < old(self).rows().len(),
            j < old(self).cols().len(),
            entry.unit.exps() == old(self).unit_at(i as int, j as int),
        ensures
            final(self).wf(),
            final(self).rows() == old(self).rows(),
            final(self).cols() == old(self).cols(),
            forall|p: int, q: int| 0 <= p < old(self).rows().len() && 0 <= q < old(self).cols().len() ==>
                #[trigger] final(self).inner.at(p, q) == (if p == i && q == j { entry.value } else { old(self).inner.at(p, q) }),
    {
        self.inner.set(i, j, entry.value);
    }

    /// Builder form of [`set`](Self::set).
    pub fn with(self, i: usize, j: usize, entry: Quantity<T>) -> (r: Self)
        requires
            self.wf(),
            i < self.rows().len(),
            j < self.cols().len(),
            entry.unit.exps() == self.unit_at(i as int, j as int),
        ensures
            r.wf(),
            r.rows() == self.rows(),
            r.cols() == self.cols(),
            forall|p: int, q: int| 0 <= p < self.rows().len() && 0 <= q < self.cols().len() ==>
                #[trigger] r.inner.at(p, q) == (if p == i && q == j { entry.value } else { self.inner.at(p, q) }),
    {
        let mut m = self;
        m.set(i, j, entry);
        m
    }
}


/// `m` is `o` on its diagonal and `z` everywhere else.
pub open spec fn identity_pattern<T>(m: RawMatrix<T>, z: T, o: T) -> bool {
    forall|i: int, j: int| 0 <= i < m.nrows && 0 <= j < m.ncols ==>
        #[trigger] m.at(i, j) == (if i == j { o } else { z })
}

/// `m` holds `z` at every position strictly below its diagonal (`below`) or
/// strictly above it (`!below`), and the entries of `src` everywhere else.
pub open spec fn triangle_pattern<T>(m: RawMatrix<T>, src: RawMatrix<T>, z: T, below: bool) -> bool {
    forall|i: int, j: int| 0 <= i < m.nrows && 0 <= j < m.ncols ==>
        #[trigger] m.at(i, j) == (if (below && i > j) || (!below && i < j) { z } else { src.at(i, j) })
}

/// `m` holds the column `d` on its diagonal and `z` everywhere else.
pub open spec fn diagonal_pattern<T>(m: RawMatrix<T>, d: RawMatrix<T>, z: T) -> bool {
    forall|i: int, j: int| 0 <= i < m.nrows && 0 <= j < m.ncols ==>
        #[trigger] m.at(i, j) == (if i == j { d.at(i, 0) } else { z })
}

/// Dividing a unit by the dimensionless unit leaves it unchanged.
pub proof fn lemma_div_one(a: Seq<int>)
    requires
        a.len() == 12,
    ensures
        spec_div(a, spec_one()) == a,
{
    assert(spec_div(a, spec_one()) =~= a);
}

/// A unit divided by itself is dimensionless.
pub proof fn lemma_div_self(a: Seq<int>)
    ensures
        spec_div(a, a) == spec_one(),
{
    assert(spec_div(a, a) =~= spec_one());
}

/// Dividing `a` by `a / g` gives back `g`.
pub proof fn lemma_div_div(a: Seq<int>, g: Seq<int>)
    requires
        g.len() == 12,
    ensures
        spec_div(a, spec_div(a, g)) == g,
{
    assert(spec_div(a, spec_div(a, g)) =~= g);
}

impl<T: nalgebra::ComplexField + Copy> MixedUnitMatrix<T> {
    /// The identity endomorphism `⟨dims, dims⟩`: ones on the diagonal (whose
    /// units `dims[i] / dims[i]` are dimensionless) and zeros elsewhere.
    pub fn identity(dims: Vec<Unit>) -> (r: Self)
        requires
            dims.len() * dims.len() <= usize::MAX,
        ensures
            r.wf(),
            r.rows() == dims@,
            r.cols() == dims@,
            exists|z: T, o: T| #[trigger] identity_pattern(r.inner, z, o),
    {
        let z = na_zero();
        let o = na_one();
        let inner = RawMatrix::identity(dims.len(), z, o);
        let cols = copy_list(&dims);
        let r = MixedUnitMatrix { inner, row_dims: dims, col_dims: cols };
        assert(identity_pattern(r.inner, z, o));
        r
    }

    /// The diagonal matrix `⟨dims, [1 … 1]⟩` built from an index column
    /// `diag : ⟨dims, [1]⟩`: `diag[i]` at `(i, i)`, zero elsewhere.
    pub fn from_diagonal(diag: &MixedUnitMatrix<T>) -> (r: Self)
        requires
            diag.wf(),
            diag.cols().len() == 1,
            diag.cols()[0].exps() == spec_one(),
            diag.rows().len() * diag.rows().len() <= usize::MAX,
        ensures
            r.wf(),
            r.rows() == diag.rows(),
            r.cols().len() == diag.rows().len(),
            forall|j: int| 0 <= j < r.cols().len() ==> (#[trigger] r.cols()[j]).exps() == spec_one(),
            exists|z: T| #[trigger] diagonal_pattern(r.inner, diag.inner, z),
    {
        let z = na_zero();
        let inner = RawMatrix::from_diagonal(&diag.inner, z);
        let cols = repeat(&Unit::dimensionless(), diag.row_dims.len());
        let r = MixedUnitMatrix { inner, row_dims: copy_list(&diag.row_dims), col_dims: cols };
        assert(diagonal_pattern(r.inner, diag.inner, z));
        r
    }

    /// The upper triangle (diagonal included), zero below it; the unit lists
    /// are kept.
    pub fn upper_triangle(&self) -> (r: Self)
        requires
            self.wf(),
        ensures
            r.wf(),
            r.rows() == self.rows(),
            r.cols() == self.cols(),
            r.inner.nrows == self.inner.nrows,
            r.inner.ncols == self.inner.ncols,
            exists|z: T| #[trigger] triangle_pattern(r.inner, self.inner, z, true),
    {
        let z = na_zero();
        let inner = self.inner.upper_triangle(z);
        assert(triangle_pattern(inner, self.inner, z, true));
        MixedUnitMatrix { inner, row_dims: copy_list(&self.row_dims), col_dims: copy_list(&self.col_dims) }
    }

    /// The lower triangle (diagonal included), zero above it; the unit lists
    /// are kept.
    pub fn lower_triangle(&self) -> (r: Self)
        requires
            self.wf(),
        ensures
            r.wf(),
            r.rows() == self.rows(),
            r.cols() == self.cols(),
            r.inner.nrows == self.inner.nrows,
            r.inner.ncols == self.inner.ncols,
            exists|z: T| #[trigger] triangle_pattern(r.inner, self.inner, z, false),
    {
        let z = na_zero();
        let inner = self.inner.lower_triangle(z);
        assert(triangle_pattern(inner, self.inner, z, false));
        MixedUnitMatrix { inner, row_dims: copy_list(&self.row_dims), col_dims: copy_list(&self.col_dims) }
    }
}


/// `t` is the transpose of `m`: the reciprocal unit lists swapped, and entry
/// `(i, j)` of `t` is entry `(j, i)` of `m`.
pub open spec fn is_transpose<T>(m: MixedUnitMatrix<T>, t: MixedUnitMatrix<T>) -> bool {
    &&& t.wf()
    &&& is_mapped(UnitMap::Reciprocal, m.cols(), t.rows())
    &&& is_mapped(UnitMap::Reciprocal, m.rows(), t.cols())
    &&& forall|i: int, j: int| 0 <= i < m.cols().len() && 0 <= j < m.rows().len() ==> #[trigger] t.inner.at(i, j) == m.inner.at(j, i)
}

/// `b` is the `rb × cb` block of `m` at `(r0, c0)`, with the matching
/// sublists of units.
pub open spec fn is_block_of<T>(b: MixedUnitMatrix<T>, m: MixedUnitMatrix<T>, r0: int, c0: int, rb: int, cb: int) -> bool {
    &&& b.wf()
    &&& b.rows() == m.rows().subrange(r0, r0 + rb)
    &&& b.cols() == m.cols().subrange(c0, c0 + cb)
    &&& forall|i: int, j: int| 0 <= i < rb && 0 <= j < cb ==> #[trigger] b.inner.at(i, j) == m.inner.at(r0 + i, c0 + j)
}

/// `r` is `[a | b]`.
pub open spec fn is_hcat<T>(r: MixedUnitMatrix<T>, a: MixedUnitMatrix<T>, b: MixedUnitMatrix<T>) -> bool {
    &&& r.wf()
    &&& r.rows() == a.rows()
    &&& r.cols() == a.cols() + b.cols()
    &&& forall|i: int, j: int| 0 <= i < a.rows().len() && 0 <= j < a.cols().len() ==> #[trigger] r.inner.at(i, j) == a.inner.at(i, j)
    &&& forall|i: int, j: int| 0 <= i < a.rows().len() && 0 <= j < b.cols().len() ==> #[trigger] r.inner.at(i, a.cols().len() + j) == b.inner.at(i, j)
}

/// `r` is `[a; b]`.
pub open spec fn is_vcat<T>(r: MixedUnitMatrix<T>, a: MixedUnitMatrix<T>, b: MixedUnitMatrix<T>) -> bool {
    &&& r.wf()
    &&& r.rows() == a.rows() + b.rows()
    &&& r.cols() == a.cols()
    &&& forall|i: int, j: int| 0 <= i < a.rows().len() && 0 <= j < a.cols().len() ==> #[trigger] r.inner.at(i, j) == a.inner.at(i, j)
    &&& forall|i: int, j: int| 0 <= i < b.rows().len() && 0 <= j < a.cols().len() ==> #[trigger] r.inner.at(a.rows().len() + i, j) == b.inner.at(i, j)
}

impl<T: Copy> MixedUnitMatrix<T> {
    /// Column `j` as a vector `⟨row_dims, [col_dims[j]]⟩`: every entry keeps
    /// the unit it had in the matrix.
    pub fn column(&self, j: usize) -> (r: Self)
        requires
            self.wf(),
            j < self.cols().len(),
        ensures
            r.wf(),
            r.rows() == self.rows(),
            r.cols() == seq![self.cols()[j as int]],
            forall|i: int| 0 <= i < self.rows().len() ==> #[trigger] r.inner.at(i, 0) == self.inner.at(i, j as int),
            forall|i: int| 0 <= i < self.rows().len() ==> #[trigger] r.unit_at(i, 0) == self.unit_at(i, j as int),
    {
        let mut cols: Vec<Unit> = Vec::new();
        cols.push(self.col_dims[j]);
        let r = MixedUnitMatrix { inner: self.inner.column(j), row_dims: copy_list(&self.row_dims), col_dims: cols };
        assert(r.cols() =~= seq![self.cols()[j as int]]);
        r
    }

    /// Row `i` as a row vector `⟨[row_dims[i]], col_dims⟩`: every entry keeps
    /// the unit it had in the matrix.
    pub fn row(&self, i: usize) -> (r: Self)
        requires
            self.wf(),
            i < self.rows().len(),
        ensures
            r.wf(),
            r.rows() == seq![self.rows()[i as int]],
            r.cols() == self.cols(),
            forall|j: int| 0 <= j < self.cols().len() ==> #[trigger] r.inner.at(0, j) == self.inner.at(i as int, j),
            forall|j: int| 0 <= j < self.cols().len() ==> #[trigger] r.unit_at(0, j) == self.unit_at(i as int, j),
    {
        let mut rows: Vec<Unit> = Vec::new();
        rows.push(self.row_dims[i]);
        let r = MixedUnitMatrix { inner: self.inner.row(i), row_dims: rows, col_dims: copy_list(&self.col_dims) };
        assert(r.rows() =~= seq![self.rows()[i as int]]);
        r
    }

    /// The main diagonal of a square matrix as the vector
    /// `⟨row_dims / col_dims, [1]⟩`: entry `i` keeps the unit
    /// `row_dims[i] / col_dims[i]` it had in the matrix.
    pub fn diagonal(&self) -> (r: Self)
        requires
            self.wf(),
            self.rows().len() == self.cols().len(),
            self.units_operable(),
        ensures
            r.wf(),
            is_zip_div(self.rows(), self.cols(), r.rows()),
            r.cols().len() == 1,
            r.cols()[0].exps() == spec_one(),
            forall|i: int| 0 <= i < self.rows().len() ==> #[trigger] r.inner.at(i, 0) == self.inner.at(i, i),
            forall|i: int| 0 <= i < self.rows().len() ==> #[trigger] r.unit_at(i, 0) == self.unit_at(i, i),
    {
        let mut cols: Vec<Unit> = Vec::new();
        cols.push(Unit::dimensionless());
        let r = MixedUnitMatrix { inner: self.inner.diagonal(), row_dims: zip_div(&self.row_dims, &self.col_dims), col_dims: cols };
        proof {
            assert forall|i: int| 0 <= i < self.rows().len() implies #[trigger] r.unit_at(i, 0) == self.unit_at(i, i) by {
                lemma_div_one(r.rows()[i].exps());
            }
        }
        r
    }

    /// The `rb × cb` block whose top-left corner is `(r0, c0)`, carrying the
    /// sublists `row_dims[r0 .. r0 + rb]` and `col_dims[c0 .. c0 + cb]`: every
    /// entry keeps its unit.
    pub fn block(&self, r0: usize, c0: usize, rb: usize, cb: usize) -> (r: Self)
        requires
            self.wf(),
            r0 + rb <= self.rows().len(),
            c0 + cb <= self.cols().len(),
        ensures
            r.wf(),
            r.rows() == self.rows().subrange(r0 as int, r0 + rb),
            r.cols() == self.cols().subrange(c0 as int, c0 + cb),
            forall|i: int, j: int| 0 <= i < rb && 0 <= j < cb ==> #[trigger] r.inner.at(i, j) == self.inner.at(r0 + i, c0 + j),
            forall|i: int, j: int| 0 <= i < rb && 0 <= j < cb ==> #[trigger] r.unit_at(i, j) == self.unit_at(r0 + i, c0 + j),
            is_block_of(r, *self, r0 as int, c0 as int, rb as int, cb as int),
    {
        MixedUnitMatrix {
            inner: self.inner.block(r0, c0, rb, cb),
            row_dims: sliced(&self.row_dims, r0, rb),
            col_dims: sliced(&self.col_dims, c0, cb),
        }
    }

    /// [`block`](Self::block), reduced to a [`UniformUnitMatrix`] when both
    /// sublists are uniform (every entry then shares the unit of the block's
    /// corner), and kept mixed otherwise.
    pub fn block_auto(&self, r0: usize, c0: usize, rb: usize, cb: usize) -> (r: Reduced<T>)
        requires
            self.wf(),
            0 < rb,
            0 < cb,
            r0 + rb <= self.rows().len(),
            c0 + cb <= self.cols().len(),
            self.units_operable(),
        ensures
            r is Uniform <==> (spec_is_uniform(self.rows().subrange(r0 as int, r0 + rb))
                && spec_is_uniform(self.cols().subrange(c0 as int, c0 + cb))),
            r matches Reduced::Uniform(u) ==> {
                &&& u.wf()
                &&& u.inner.nrows == rb
                &&& u.inner.ncols == cb
                &&& u.unit.exps() == self.unit_at(r0 as int, c0 as int)
                &&& forall|i: int, j: int| 0 <= i < rb && 0 <= j < cb ==> #[trigger] u.inner.at(i, j) == self.inner.at(r0 + i, c0 + j)
                &&& forall|i: int, j: int| 0 <= i < rb && 0 <= j < cb ==> #[trigger] self.unit_at(r0 + i, c0 + j) == u.unit.exps()
            },
            r matches Reduced::Mixed(m) ==> {
                &&& m.wf()
                &&& m.rows() == self.rows().subrange(r0 as int, r0 + rb)
                &&& m.cols() == self.cols().subrange(c0 as int, c0 + cb)
                &&& forall|i: int, j: int| 0 <= i < rb && 0 <= j < cb ==> #[trigger] m.inner.at(i, j) == self.inner.at(r0 + i, c0 + j)
            },
    {
        let b = self.block(r0, c0, rb, cb);
        let ru = collapse_uniform(&b.row_dims);
        let cu = collapse_uniform(&b.col_dims);
        match (ru, cu) {
            (Some(_), Some(_)) => {
                proof {
                    assert(b.rows()[0] == self.rows()[r0 as int]);
                    assert(b.cols()[0] == self.cols()[c0 as int]);
                    assert(b.unit_at(0, 0) == self.unit_at(r0 + 0, c0 + 0));
                }
                let ghost bb = b;
                let u = b.into_uniform();
                proof {
                    assert forall|i: int, j: int| 0 <= i < rb && 0 <= j < cb implies #[trigger] self.unit_at(r0 + i, c0 + j) == u.unit.exps() by {
                        assert(bb.unit_at(i, j) == self.unit_at(r0 + i, c0 + j));
                        assert(bb.unit_at(i, j) == u.unit.exps());
                    }
                }
                Reduced::Uniform(u)
            },
            _ => Reduced::Mixed(b),
        }
    }

    /// Writes `block` with its top-left corner at `(r0, c0)`; its unit lists
    /// must be the matching sublists of this matrix's.
    pub fn set_block(&mut self, r0: usize, c0: usize, block: &Self)
        requires
            old(self).wf(),
            block.wf(),
            r0 + block.rows().len() <= old(self).rows().len(),
            c0 + block.cols().len() <= old(self).cols().len(),
            block.rows() == old(self).rows().subrange(r0 as int, r0 + block.rows().len()),
            block.cols() == old(self).cols().subrange(c0 as int, c0 + block.cols().len()),
        ensures
            final(self).wf(),
            final(self).rows() == old(self).rows(),
            final(self).cols() == old(self).cols(),
            forall|i: int, j: int| 0 <= i < old(self).rows().len() && 0 <= j < old(self).cols().len() ==>
                #[trigger] final(self).inner.at(i, j) == (if r0 <= i < r0 + block.rows().len() && c0 <= j < c0 + block.cols().len() {
                    block.inner.at(i - r0, j - c0)
                } else {
                    old(self).inner.at(i, j)
                }),
    {
        self.inner.set_block(r0, c0, &block.inner);
    }

    /// Builder form of [`set_block`](Self::set_block).
    pub fn with_block(self, r0: usize, c0: usize, block: &Self) -> (r: Self)
        requires
            self.wf(),
            block.wf(),
            r0 + block.rows().len() <= self.rows().len(),
            c0 + block.cols().len() <= self.cols().len(),
            block.rows() == self.rows().subrange(r0 as int, r0 + block.rows().len()),
            block.cols() == self.cols().subrange(c0 as int, c0 + block.cols().len()),
        ensures
            r.wf(),
            r.rows() == self.rows(),
            r.cols() == self.cols(),
            forall|i: int, j: int| 0 <= i < self.rows().len() && 0 <= j < self.cols().len() ==>
                #[trigger] r.inner.at(i, j) == (if r0 <= i < r0 + block.rows().len() && c0 <= j < c0 + block.cols().len() {
                    block.inner.at(i - r0, j - c0)
                } else {
                    self.inner.at(i, j)
                }),
    {
        let mut m = self;
        m.set_block(r0, c0, block);
        m
    }

    /// `[self | right]`: both span the same row units; the columns are
    /// `col_dims` followed by `right`'s.
    pub fn hcat(&self, right: &Self) -> (r: Self)
        requires
            self.wf(),
            right.wf(),
            self.rows() == right.rows(),
            self.cols().len() + right.cols().len() <= usize::MAX,
            self.rows().len() * (self.cols().len() + right.cols().len()) <= usize::MAX,
        ensures
            r.wf(),
            r.rows() == self.rows(),
            r.cols() == self.cols() + right.cols(),
            forall|i: int, j: int| 0 <= i < self.rows().len() && 0 <= j < self.cols().len() ==> #[trigger] r.inner.at(i, j) == self.inner.at(i, j),
            forall|i: int, j: int| 0 <= i < self.rows().len() && 0 <= j < right.cols().len() ==> #[trigger] r.inner.at(i, self.cols().len() + j) == right.inner.at(i, j),
            is_hcat(r, *self, *right),
    {
        MixedUnitMatrix {
            inner: self.inner.hcat(&right.inner),
            row_dims: copy_list(&self.row_dims),
            col_dims: concat(&self.col_dims, &right.col_dims),
        }
    }

    /// `[self; below]`: both span the same column units; the rows are
    /// `row_dims` followed by `below`'s.
    pub fn vcat(&self, below: &Self) -> (r: Self)
        requires
            self.wf(),
            below.wf(),
            self.cols() == below.cols(),
            self.rows().len() + below.rows().len() <= usize::MAX,
            (self.rows().len() + below.rows().len()) * self.cols().len() <= usize::MAX,
        ensures
            r.wf(),
            r.rows() == self.rows() + below.rows(),
            r.cols() == self.cols(),
            forall|i: int, j: int| 0 <= i < self.rows().len() && 0 <= j < self.cols().len() ==> #[trigger] r.inner.at(i, j) == self.inner.at(i, j),
            forall|i: int, j: int| 0 <= i < below.rows().len() && 0 <= j < self.cols().len() ==> #[trigger] r.inner.at(self.rows().len() + i, j) == below.inner.at(i, j),
            is_vcat(r, *self, *below),
    {
        MixedUnitMatrix {
            inner: self.inner.vcat(&below.inner),
            row_dims: concat(&self.row_dims, &below.row_dims),
            col_dims: copy_list(&self.col_dims),
        }
    }

    /// The transpose `⟨1 / col_dims, 1 / row_dims⟩`: entry `(i, j)` of the
    /// result is entry `(j, i)`, and keeps its unit.
    pub fn transpose(&self) -> (r: Self)
        requires
            self.wf(),
            self.units_operable(),
        ensures
            r.wf(),
            is_mapped(UnitMap::Reciprocal, self.cols(), r.rows()),
            is_mapped(UnitMap::Reciprocal, self.rows(), r.cols()),
            forall|i: int, j: int| 0 <= i < self.cols().len() && 0 <= j < self.rows().len() ==> #[trigger] r.inner.at(i, j) == self.inner.at(j, i),
            forall|i: int, j: int| 0 <= i < self.cols().len() && 0 <= j < self.rows().len() ==> #[trigger] r.unit_at(i, j) == self.unit_at(j, i),
            is_transpose(*self, r),
    {
        let f = UnitMap::Reciprocal;
        let r = MixedUnitMatrix {
            inner: self.inner.transpose(),
            row_dims: map_units(&f, &self.col_dims),
            col_dims: map_units(&f, &self.row_dims),
        };
        proof {
            assert forall|i: int, j: int| 0 <= i < self.cols().len() && 0 <= j < self.rows().len() implies #[trigger] r.unit_at(i, j) == self.unit_at(j, i) by {
                assert(r.unit_at(i, j) =~= self.unit_at(j, i));
            }
        }
        r
    }
}

impl<T> MixedUnitMatrix<T> {
    /// Regauges so that column `j` is dimensionless: both unit lists are
    /// divided by `col_dims[j]`. Every entry keeps its unit and value.
    pub fn canonical_at_col(self, j: usize) -> (r: Self)
        requires
            self.wf(),
            j < self.cols().len(),
            self.units_operable(),
        ensures
            r.wf(),
            r.inner == self.inner,
            is_mapped(UnitMap::DivBy(self.cols()[j as int]), self.rows(), r.rows()),
            is_mapped(UnitMap::DivBy(self.cols()[j as int]), self.cols(), r.cols()),
            r.cols()[j as int].exps() == spec_one(),
            forall|i: int, k: int| 0 <= i < self.rows().len() && 0 <= k < self.cols().len() ==> #[trigger] r.unit_at(i, k) == self.unit_at(i, k),
    {
        let f = UnitMap::DivBy(self.col_dims[j]);
        self.regauge(&f)
    }

    /// Regauges so that row `i` is dimensionless: both unit lists are divided
    /// by `row_dims[i]`. Every entry keeps its unit and value.
    pub fn canonical_at_row(self, i: usize) -> (r: Self)
        requires
            self.wf(),
            i < self.rows().len(),
            self.units_operable(),
        ensures
            r.wf(),
            r.inner == self.inner,
            is_mapped(UnitMap::DivBy(self.rows()[i as int]), self.rows(), r.rows()),
            is_mapped(UnitMap::DivBy(self.rows()[i as int]), self.cols(), r.cols()),
            r.rows()[i as int].exps() == spec_one(),
            forall|p: int, k: int| 0 <= p < self.rows().len() && 0 <= k < self.cols().len() ==> #[trigger] r.unit_at(p, k) == self.unit_at(p, k),
    {
        let f = UnitMap::DivBy(self.row_dims[i]);
        self.regauge(&f)
    }

    /// Regauges so that row `i` carries exactly the unit `g`: both unit lists
    /// are divided by `row_dims[i] / g`. Every entry keeps its unit and value.
    pub fn with_gauge_at_row(self, g: Unit, i: usize) -> (r: Self)
        requires
            self.wf(),
            i < self.rows().len(),
            self.units_operable(),
            g.operable(),
            crate::unit::exps_within(spec_div(self.rows()[i as int].exps(), g.exps()), 200),
        ensures
            r.wf(),
            r.inner == self.inner,
            forall|k: int| 0 <= k < self.rows().len() ==> (#[trigger] r.rows()[k]).exps() == spec_div(self.rows()[k].exps(), spec_div(self.rows()[i as int].exps(), g.exps())),
            forall|k: int| 0 <= k < self.cols().len() ==> (#[trigger] r.cols()[k]).exps() == spec_div(self.cols()[k].exps(), spec_div(self.rows()[i as int].exps(), g.exps())),
            r.rows().len() == self.rows().len(),
            r.cols().len() == self.cols().len(),
            r.rows()[i as int].exps() == g.exps(),
            forall|p: int, k: int| 0 <= p < self.rows().len() && 0 <= k < self.cols().len() ==> #[trigger] r.unit_at(p, k) == self.unit_at(p, k),
    {
        let d = self.row_dims[i].div(&g);
        proof {
            lemma_within_operable(d);
            lemma_div_div(self.rows()[i as int].exps(), g.exps());
        }
        let f = UnitMap::DivBy(d);
        self.regauge(&f)
    }

    /// Regauges so that column `j` carries exactly the unit `g`: both unit
    /// lists are divided by `col_dims[j] / g`. Every entry keeps its unit and
    /// value.
    pub fn with_gauge_at_column(self, g: Unit, j: usize) -> (r: Self)
        requires
            self.wf(),
            j < self.cols().len(),
            self.units_operable(),
            g.operable(),
            crate::unit::exps_within(spec_div(self.cols()[j as int].exps(), g.exps()), 200),
        ensures
            r.wf(),
            r.inner == self.inner,
            forall|k: int| 0 <= k < self.rows().len() ==> (#[trigger] r.rows()[k]).exps() == spec_div(self.rows()[k].exps(), spec_div(self.cols()[j as int].exps(), g.exps())),
            forall|k: int| 0 <= k < self.cols().len() ==> (#[trigger] r.cols()[k]).exps() == spec_div(self.cols()[k].exps(), spec_div(self.cols()[j as int].exps(), g.exps())),
            r.rows().len() == self.rows().len(),
            r.cols().len() == self.cols().len(),
            r.cols()[j as int].exps() == g.exps(),
            forall|p: int, k: int| 0 <= p < self.rows().len() && 0 <= k < self.cols().len() ==> #[trigger] r.unit_at(p, k) == self.unit_at(p, k),
    {
        let d = self.col_dims[j].div(&g);
        proof {
            lemma_within_operable(d);
            lemma_div_div(self.cols()[j as int].exps(), g.exps());
        }
        let f = UnitMap::DivBy(d);
        self.regauge(&f)
    }

    /// Divides both unit lists by the unit of `f` (a `DivBy` map); every
    /// entry unit is unchanged.
    fn regauge(self, f: &UnitMap) -> (r: Self)
        requires
            self.wf(),
            self.units_operable(),
            f is DivBy,
            f->DivBy_0.operable(),
        ensures
            r.wf(),
            r.inner == self.inner,
            is_mapped(*f, self.rows(), r.rows()),
            is_mapped(*f, self.cols(), r.cols()),
            forall|p: int, k: int| 0 <= p < self.rows().len() && 0 <= k < self.cols().len() ==> #[trigger] r.unit_at(p, k) == self.unit_at(p, k),
    {
        let rows = map_units(f, &self.row_dims);
        let cols = map_units(f, &self.col_dims);
        let r = MixedUnitMatrix { inner: self.inner, row_dims: rows, col_dims: cols };
        proof {
            let d = f->DivBy_0.exps();
            assert forall|p: int, k: int| 0 <= p < self.rows().len() && 0 <= k < self.cols().len() implies #[trigger] r.unit_at(p, k) == self.unit_at(p, k) by {
                lemma_div_regauge(self.rows()[p].exps(), self.cols()[k].exps(), d);
            }
            assert forall|k: int| 0 <= k < self.cols().len() implies #[trigger] r.cols()[k].exps() == spec_div(self.cols()[k].exps(), d) by {}
        }
        r
    }

    /// Re-tags a matrix whose row units and column units are each a single
    /// repeated unit as a [`UniformUnitMatrix`] with the one entry unit
    /// `row_dims[0] / col_dims[0]`, consuming it.
    pub fn into_uniform(self) -> (r: UniformUnitMatrix<T>)
        requires
            self.wf(),
            self.rows().len() > 0,
            self.cols().len() > 0,
            spec_is_uniform(self.rows()),
            spec_is_uniform(self.cols()),
            self.rows()[0].operable(),
            self.cols()[0].operable(),
        ensures
            r.wf(),
            r.inner == self.inner,
            r.unit.exps() == self.unit_at(0, 0),
            forall|i: int, j: int| 0 <= i < self.rows().len() && 0 <= j < self.cols().len() ==> #[trigger] self.unit_at(i, j) == r.unit.exps(),
    {
        let unit = self.row_dims[0].div(&self.col_dims[0]);
        proof {
            assert forall|i: int, j: int| 0 <= i < self.rows().len() && 0 <= j < self.cols().len() implies #[trigger] self.unit_at(i, j) == unit.exps() by {
                assert(self.rows()[i] == self.rows()[0]);
                assert(self.cols()[j] == self.cols()[0]);
            }
        }
        UniformUnitMatrix { inner: self.inner, unit }
    }
}

impl<T: Copy> MixedUnitMatrix<T> {
    /// Copies a matrix whose row units and column units are each a single
    /// repeated unit into a [`UniformUnitMatrix`], leaving `self` intact.
    pub fn to_uniform(&self) -> (r: UniformUnitMatrix<T>)
        requires
            self.wf(),
            self.rows().len() > 0,
            self.cols().len() > 0,
            spec_is_uniform(self.rows()),
            spec_is_uniform(self.cols()),
            self.rows()[0].operable(),
            self.cols()[0].operable(),
        ensures
            r.wf(),
            r.inner.nrows == self.inner.nrows,
            r.inner.ncols == self.inner.ncols,
            r.inner.data@ == self.inner.data@,
            r.unit.exps() == self.unit_at(0, 0),
            forall|i: int, j: int| 0 <= i < self.rows().len() && 0 <= j < self.cols().len() ==> #[trigger] self.unit_at(i, j) == r.unit.exps(),
    {
        let copy = MixedUnitMatrix { inner: self.inner.copy(), row_dims: copy_list(&self.row_dims), col_dims: copy_list(&self.col_dims) };
        copy.into_uniform()
    }
}

/// A block read back in its lightest form: uniform when every entry shares one
/// unit, mixed otherwise.
pub enum Reduced<T> {
    Uniform(UniformUnitMatrix<T>),
    Mixed(MixedUnitMatrix<T>),
}

/// A unit whose exponents lie within the operating range is operable.
pub proof fn lemma_within_operable(u: Unit)
    requires
        crate::unit::exps_within(u.exps(), 200),
    ensures
        u.operable(),
{
}

} // verus!
