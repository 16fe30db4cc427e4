//! Block and re-tagging accessors under the names the typed interface uses
//! for its variants: offsets given as type-level numbers (`_off`) and
//! borrowed views (`block_view*`, `as_uniform`, `as_mixed`). With unit lists
//! held as values, an offset is an ordinary argument and a view is read as
//! the block it shows, so each of these is the corresponding copying
//! operation.

use vstd::prelude::*;
use crate::dims::spec_is_uniform;
use crate::matrix::{is_block_of, MixedUnitMatrix, Reduced};
use crate::uniform::{repeated, UniformUnitMatrix};
use crate::unit::spec_div;

verus! {

impl<T: Copy> MixedUnitMatrix<T> {
    /// The `rb × cb` block at offset `(r0, c0)`, as [`block`](Self::block).
    pub fn block_off(&self, r0: usize, c0: usize, rb: usize, cb: usize) -> (r: Self)
        requires
            self.wf(),
            r0 + rb <= self.rows().len(),
            c0 + cb <= self.cols().len(),
        ensures
            is_block_of(r, *self, r0 as int, c0 as int, rb as int, cb as int),
    {
        self.block(r0, c0, rb, cb)
    }

    /// The block at `(r0, c0)` as the view shows it, as [`block`](Self::block).
    pub fn block_view(&self, r0: usize, c0: usize, rb: usize, cb: usize) -> (r: Self)
        requires
            self.wf(),
            r0 + rb <= self.rows().len(),
            c0 + cb <= self.cols().len(),
        ensures
            is_block_of(r, *self, r0 as int, c0 as int, rb as int, cb as int),
    {
        self.block(r0, c0, rb, cb)
    }

    /// The block at offset `(r0, c0)` as the view shows it, as
    /// [`block`](Self::block).
    pub fn block_view_off(&self, r0: usize, c0: usize, rb: usize, cb: usize) -> (r: Self)
        requires
            self.wf(),
            r0 + rb <= self.rows().len(),
            c0 + cb <= self.cols().len(),
        ensures
            is_block_of(r, *self, r0 as int, c0 as int, rb as int, cb as int),
    {
        self.block(r0, c0, rb, cb)
    }

    /// The block at offset `(r0, c0)` in its lightest form, as
    /// [`block_auto`](Self::block_auto).
    pub fn block_auto_off(&self, r0: usize, c0: usize, rb: usize, cb: usize) -> (r: Reduced<T>)
        requires
            self.wf(),
            0 < rb,
            0 < cb,
            r0 + rb <= self.rows().len(),
            c0 + cb <= self.cols().len(),
            self.units_operable(),
        ensures
            r is Uniform <==> (spec_is_uniform(self.rows().subrange(r0 as int, r0 + rb))
                && spec_is_uniform(self.cols().subrange(c0 as int, c0 + cb))),
            r matches Reduced::Uniform(u) ==> u.wf() && u.inner.nrows == rb && u.inner.ncols == cb
                && u.unit.exps() == self.unit_at(r0 as int, c0 as int),
            r matches Reduced::Mixed(m) ==> m.wf() && m.rows() == self.rows().subrange(r0 as int, r0 + rb)
                && m.cols() == self.cols().subrange(c0 as int, c0 + cb),
    {
        self.block_auto(r0, c0, rb, cb)
    }

    /// The block at `(r0, c0)` as the view shows it, in its lightest form, as
    /// [`block_auto`](Self::block_auto).
    pub fn block_view_auto(&self, r0: usize, c0: usize, rb: usize, cb: usize) -> (r: Reduced<T>)
        requires
            self.wf(),
            0 < rb,
            0 < cb,
            r0 + rb <= self.rows().len(),
            c0 + cb <= self.cols().len(),
            self.units_operable(),
        ensures
            r is Uniform <==> (spec_is_uniform(self.rows().subrange(r0 as int, r0 + rb))
                && spec_is_uniform(self.cols().subrange(c0 as int, c0 + cb))),
            r matches Reduced::Uniform(u) ==> u.wf() && u.inner.nrows == rb && u.inner.ncols == cb
                && u.unit.exps() == self.unit_at(r0 as int, c0 as int),
            r matches Reduced::Mixed(m) ==> m.wf() && m.rows() == self.rows().subrange(r0 as int, r0 + rb)
                && m.cols() == self.cols().subrange(c0 as int, c0 + cb),
    {
        self.block_auto(r0, c0, rb, cb)
    }

    /// The block at offset `(r0, c0)` as the view shows it, in its lightest
    /// form, as [`block_auto`](Self::block_auto).
    pub fn block_view_auto_off(&self, r0: usize, c0: usize, rb: usize, cb: usize) -> (r: Reduced<T>)
        requires
            self.wf(),
            0 < rb,
            0 < cb,
            r0 + rb <= self.rows().len(),
            c0 + cb <= self.cols().len(),
            self.units_operable(),
        ensures
            r is Uniform <==> (spec_is_uniform(self.rows().subrange(r0 as int, r0 + rb))
                && spec_is_uniform(self.cols().subrange(c0 as int, c0 + cb))),
            r matches Reduced::Uniform(u) ==> u.wf() && u.inner.nrows == rb && u.inner.ncols == cb
                && u.unit.exps() == self.unit_at(r0 as int, c0 as int),
            r matches Reduced::Mixed(m) ==> m.wf() && m.rows() == self.rows().subrange(r0 as int, r0 + rb)
                && m.cols() == self.cols().subrange(c0 as int, c0 + cb),
    {
        self.block_auto(r0, c0, rb, cb)
    }

    /// The matrix as the uniform view shows it (its unit lists each a single
    /// repeated unit), as [`to_uniform`](Self::to_uniform).
    pub fn as_uniform(&self) -> (r: UniformUnitMatrix<T>)
        requires
            self.wf(),
            self.rows().len() > 0,
            self.cols().len() > 0,
            spec_is_uniform(self.rows()),
            spec_is_uniform(self.cols()),
            self.rows()[0].operable(),
            self.cols()[0].operable(),
        ensures
            r.wf(),
            r.inner.nrows == self.inner.nrows,
            r.inner.ncols == self.inner.ncols,
            r.inner.data@ == self.inner.data@,
            r.unit.exps() == self.unit_at(0, 0),
    {
        self.to_uniform()
    }
}

impl<T: Copy> UniformUnitMatrix<T> {
    /// The matrix as the mixed view shows it, with the uniform row units
    /// `[row_unit; nrows]` and column units `[col_unit; ncols]`, as
    /// [`to_mixed`](Self::to_mixed).
    pub fn as_mixed(&self, row_unit: crate::unit::Unit, col_unit: crate::unit::Unit) -> (r: MixedUnitMatrix<T>)
        requires
            self.wf(),
            spec_div(row_unit.exps(), col_unit.exps()) == self.unit.exps(),
        ensures
            r.wf(),
            r.inner.data@ == self.inner.data@,
            r.rows() == repeated(row_unit, self.inner.nrows as nat),
            r.cols() == repeated(col_unit, self.inner.ncols as nat),
    {
        self.to_mixed(row_unit, col_unit)
    }
}

impl<T> UniformUnitMatrix<T> {
    /// Gives the matrix the row units `row_dims` and column units `col_dims`
    /// (each a single repeated unit whose quotient is this matrix's unit,
    /// their lengths the matrix's shape), as [`gauge`](Self::gauge).
    pub fn gauge_dyn(self, row_dims: Vec<crate::unit::Unit>, col_dims: Vec<crate::unit::Unit>) -> (r: MixedUnitMatrix<T>)
        requires
            self.wf(),
            self.inner.nrows == row_dims.len(),
            self.inner.ncols == col_dims.len(),
            row_dims.len() > 0,
            col_dims.len() > 0,
            spec_is_uniform(row_dims@),
            spec_is_uniform(col_dims@),
            spec_div(row_dims@[0].exps(), col_dims@[0].exps()) == self.unit.exps(),
        ensures
            r.wf(),
            r.inner == self.inner,
            r.rows() == row_dims@,
            r.cols() == col_dims@,
            forall|i: int, j: int| 0 <= i < row_dims.len() && 0 <= j < col_dims.len() ==> #[trigger] r.unit_at(i, j) == self.unit.exps(),
    {
        self.gauge(row_dims, col_dims)
    }
}

} // verus!
