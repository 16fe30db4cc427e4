//! Plain column-major matrix storage.
//!
//! [`RawMatrix`] holds the numbers of a matrix without any units: `nrows`,
//! `ncols`, and the entries in column-major order (entry `(i, j)` at index
//! `i + j · nrows`), the layout the numeric backend uses. The structural
//! operations (transpose, concatenation, blocks, rows, columns, diagonals,
//! swaps, triangles) are implemented and verified here; the numeric ones are
//! delegated to the backend in [`crate::backend`].

use vstd::prelude::*;

verus! {

/// A matrix of `nrows × ncols` entries stored column by column.
#[derive(Clone, Debug)]
pub struct RawMatrix<T> {
    pub nrows: usize,
    pub ncols: usize,
    pub data: Vec<T>,
}

/// Position of entry `(i, j)` of a column-major matrix with `nrows` rows.
pub open spec fn cm(i: int, j: int, nrows: int) -> int {
    i + j * nrows
}

/// `(i, j)` lies inside an `nrows × ncols` matrix, and its column-major
/// position lies inside the storage.
pub proof fn lemma_cm_bounds(i: int, j: int, nrows: int, ncols: int)
    requires
        0 <= i < nrows,
        0 <= j < ncols,
    ensures
        0 <= cm(i, j, nrows) < nrows * ncols,
        cm(i, j, nrows) + 1 <= nrows * ncols,
{
    assert(0 <= i + j * nrows < nrows * ncols) by (nonlinear_arith)
        requires 0 <= i < nrows, 0 <= j < ncols;
}

/// Distinct positions of an `nrows`-row matrix have distinct storage indices.
pub proof fn lemma_cm_injective(i1: int, j1: int, i2: int, j2: int, nrows: int)
    requires
        0 <= i1 < nrows,
        0 <= i2 < nrows,
        0 <= j1,
        0 <= j2,
        cm(i1, j1, nrows) == cm(i2, j2, nrows),
    ensures
        i1 == i2,
        j1 == j2,
{
    assert(j1 == j2) by (nonlinear_arith)
        requires 0 <= i1 < nrows, 0 <= i2 < nrows, 0 <= j1, 0 <= j2, i1 + j1 * nrows == i2 + j2 * nrows;
}

/// Multiplication of integers commutes.
pub proof fn lemma_mul_comm(a: int, b: int)
    ensures
        a * b == b * a,
{
    assert(a * b == b * a) by (nonlinear_arith);
}

impl<T> RawMatrix<T> {
    /// The storage holds exactly `nrows · ncols` entries.
    pub open spec fn wf(&self) -> bool {
        self.data.len() == self.nrows * self.ncols
    }

    /// Entry `(i, j)`.
    pub open spec fn at(&self, i: int, j: int) -> T {
        self.data@[cm(i, j, self.nrows as int)]
    }

    /// The entry `(i, j)`.
    pub fn get(&self, i: usize, j: usize) -> (r: &T)
        requires
            self.wf(),
            i < self.nrows,
            j < self.ncols,
        ensures
            *r == self.at(i as int, j as int),
    {
        proof {
            lemma_cm_bounds(i as int, j as int, self.nrows as int, self.ncols as int);
        }
        &self.data[i + j * self.nrows]
    }
}


/// The first `j` full columns and the first `i` entries of column `j` of a
/// column-major buffer agree with `f`.
pub open spec fn filled_upto<T>(data: Seq<T>, nrows: int, j: int, i: int, f: spec_fn(int, int) -> T) -> bool {
    &&& data.len() == j * nrows + i
    &&& forall|p: int, q: int|
        #![trigger data[cm(p, q, nrows)]]
        0 <= p < nrows && 0 <= q && (q < j || (q == j && p < i)) ==> data[cm(p, q, nrows)] == f(p, q)
}

/// Builds the `nrows × ncols` matrix whose entry `(i, j)` is `f(i, j)`.
pub(crate) fn from_fn<T, F: Fn(usize, usize) -> T>(
    nrows: usize,
    ncols: usize,
    f: F,
    Ghost(sf): Ghost<spec_fn(int, int) -> T>,
) -> (r: RawMatrix<T>)
    requires
        nrows * ncols <= usize::MAX,
        forall|i: usize, j: usize| i < nrows && j < ncols ==> call_requires(f, (i, j)),
        forall|i: usize, j: usize, v: T|
            i < nrows && j < ncols && call_ensures(f, (i, j), v) ==> v == sf(i as int, j as int),
    ensures
        r.wf(),
        r.nrows == nrows,
        r.ncols == ncols,
        forall|i: int, j: int| 0 <= i < nrows && 0 <= j < ncols ==> #[trigger] r.at(i, j) == sf(i, j),
{
    let mut data: Vec<T> = Vec::new();
    let mut j: usize = 0;
    while j < ncols
        invariant
            j <= ncols,
            nrows * ncols <= usize::MAX,
            forall|i: usize, j: usize| i < nrows && j < ncols ==> call_requires(f, (i, j)),
            forall|i: usize, j: usize, v: T|
                i < nrows && j < ncols && call_ensures(f, (i, j), v) ==> v == sf(i as int, j as int),
            filled_upto(data@, nrows as int, j as int, 0, sf),
        decreases ncols - j,
    {
        let mut i: usize = 0;
        while i < nrows
            invariant
                i <= nrows,
                j < ncols,
                nrows * ncols <= usize::MAX,
                forall|i: usize, j: usize| i < nrows && j < ncols ==> call_requires(f, (i, j)),
                forall|i: usize, j: usize, v: T|
                    i < nrows && j < ncols && call_ensures(f, (i, j), v) ==> v == sf(i as int, j as int),
                filled_upto(data@, nrows as int, j as int, i as int, sf),
            decreases nrows - i,
        {
            let v = f(i, j);
            let ghost old_data = data@;
            data.push(v);
            proof {
                assert(data@.len() == j * nrows + i + 1);
                assert forall|p: int, q: int|
                    0 <= p < nrows && 0 <= q && (q < j || (q == j && p < i + 1)) implies #[trigger] data@[cm(p, q, nrows as int)] == sf(p, q) by {
                    if q == j && p == i {
                    } else {
                        assert(cm(p, q, nrows as int) < j * nrows + i) by (nonlinear_arith)
                            requires 0 <= p < nrows, 0 <= q, (q < j || (q == j && p < i));
                        assert(data@[cm(p, q, nrows as int)] == old_data[cm(p, q, nrows as int)]);
                    }
                }
            }
            i += 1;
        }
        proof {
            assert((j + 1) * nrows == j * nrows + nrows) by (nonlinear_arith);
            assert forall|p: int, q: int|
                0 <= p < nrows && 0 <= q && (q < j + 1 || (q == j + 1 && p < 0)) implies #[trigger] data@[cm(p, q, nrows as int)] == sf(p, q) by {
            }
        }
        j += 1;
    }
    proof {
        assert(ncols * nrows == nrows * ncols) by (nonlinear_arith);
    }
    RawMatrix { nrows, ncols, data }
}

impl<T: Copy> RawMatrix<T> {
    /// The transpose: entry `(i, j)` of the result is entry `(j, i)` of `self`.
    pub fn transpose(&self) -> (r: RawMatrix<T>)
        requires
            self.wf(),
        ensures
            r.wf(),
            r.nrows == self.ncols,
            r.ncols == self.nrows,
            forall|i: int, j: int| 0 <= i < r.nrows && 0 <= j < r.ncols ==> #[trigger] r.at(i, j) == self.at(j, i),
    {
        let f = |i: usize, j: usize| -> (v: T)
            requires
                i < self.ncols,
                j < self.nrows,
            ensures
                v == self.at(j as int, i as int),
            { *self.get(j, i) };
        proof {
            lemma_mul_comm(self.nrows as int, self.ncols as int);
        }
        from_fn(self.ncols, self.nrows, f, Ghost(|i: int, j: int| self.at(j, i)))
    }
}


impl<T: Copy> RawMatrix<T> {
    /// An owned copy: same shape, same storage.
    pub fn copy(&self) -> (r: RawMatrix<T>)
        requires
            self.wf(),
        ensures
            r.wf(),
            r.nrows == self.nrows,
            r.ncols == self.ncols,
            r.data@ == self.data@,
    {
        let r = RawMatrix::from_column_slice(self.nrows, self.ncols, self.data.as_slice());
        assert(r.data@ =~= self.data@);
        r
    }

    /// Overwrites entry `(i, j)` with `v`.
    pub fn set(&mut self, i: usize, j: usize, v: T)
        requires
            old(self).wf(),
            i < old(self).nrows,
            j < old(self).ncols,
        ensures
            final(self).wf(),
            final(self).nrows == old(self).nrows,
            final(self).ncols == old(self).ncols,
            forall|p: int, q: int| 0 <= p < old(self).nrows && 0 <= q < old(self).ncols ==>
                #[trigger] final(self).at(p, q) == (if p == i && q == j { v } else { old(self).at(p, q) }),
    {
        proof {
            lemma_cm_bounds(i as int, j as int, self.nrows as int, self.ncols as int);
        }
        let k = i + j * self.nrows;
        let ghost before = self.data@;
        let ghost n = self.nrows as int;
        self.data.set(k, v);
        proof {
            assert(self.data@ == before.update(k as int, v));
            assert forall|p: int, q: int| 0 <= p < old(self).nrows && 0 <= q < old(self).ncols implies
                #[trigger] self.at(p, q) == (if p == i && q == j { v } else { old(self).at(p, q) }) by {
                lemma_cm_bounds(p, q, n, self.ncols as int);
                if !(p == i && q == j) {
                    if cm(p, q, n) == cm(i as int, j as int, n) {
                        lemma_cm_injective(p, q, i as int, j as int, n);
                    }
                    assert(cm(p, q, n) != k);
                }
            }
        }
    }

    /// The `nrows × ncols` matrix whose entries are `data`, column by column.
    pub fn from_column_slice(nrows: usize, ncols: usize, data: &[T]) -> (r: RawMatrix<T>)
        requires
            data@.len() == nrows * ncols,
        ensures
            r.wf(),
            r.nrows == nrows,
            r.ncols == ncols,
            r.data@ == data@,
    {
        let mut v: Vec<T> = Vec::new();
        let mut k: usize = 0;
        while k < data.len()
            invariant
                k <= data@.len(),
                v@ == data@.subrange(0, k as int),
            decreases data@.len() - k,
        {
            v.push(data[k]);
            k += 1;
            assert(v@ =~= data@.subrange(0, k as int));
        }
        assert(data@.subrange(0, data@.len() as int) =~= data@);
        RawMatrix { nrows, ncols, data: v }
    }

    /// The `nrows × ncols` matrix whose entries are `data`, row by row:
    /// entry `(i, j)` is `data[i · ncols + j]`.
    pub fn from_row_slice(nrows: usize, ncols: usize, data: &[T]) -> (r: RawMatrix<T>)
        requires
            data@.len() == nrows * ncols,
            nrows * ncols <= usize::MAX,
        ensures
            r.wf(),
            r.nrows == nrows,
            r.ncols == ncols,
            forall|i: int, j: int| 0 <= i < nrows && 0 <= j < ncols ==> #[trigger] r.at(i, j) == data@[i * ncols + j],
    {
        let f = |i: usize, j: usize| -> (v: T)
            requires
                i < nrows,
                j < ncols,
                data@.len() == nrows * ncols,
                nrows * ncols <= usize::MAX,
            ensures
                v == data@[i * ncols + j],
            {
                proof {
                    assert(i * ncols + j < nrows * ncols) by (nonlinear_arith)
                        requires i < nrows, j < ncols;
                    assert(i * ncols <= i * ncols + j);
                }
                let k = i * ncols + j;
                data[k]
            };
        from_fn(nrows, ncols, f, Ghost(|i: int, j: int| data@[i * ncols + j]))
    }

    /// Copy of the `rb × cb` block whose top-left corner is `(r0, c0)`.
    pub fn block(&self, r0: usize, c0: usize, rb: usize, cb: usize) -> (r: RawMatrix<T>)
        requires
            self.wf(),
            r0 + rb <= self.nrows,
            c0 + cb <= self.ncols,
        ensures
            r.wf(),
            r.nrows == rb,
            r.ncols == cb,
            forall|i: int, j: int| 0 <= i < rb && 0 <= j < cb ==> #[trigger] r.at(i, j) == self.at(r0 + i, c0 + j),
    {
        proof {
            assert(rb * cb <= self.nrows * self.ncols) by (nonlinear_arith)
                requires rb <= self.nrows, cb <= self.ncols;
        }
        let f = |i: usize, j: usize| -> (v: T)
            requires
                i < rb,
                j < cb,
            ensures
                v == self.at(r0 + i, c0 + j),
            { *self.get(r0 + i, c0 + j) };
        from_fn(rb, cb, f, Ghost(|i: int, j: int| self.at(r0 + i, c0 + j)))
    }

    /// `[self | right]`: the columns of `right` appended after those of `self`.
    pub fn hcat(&self, right: &RawMatrix<T>) -> (r: RawMatrix<T>)
        requires
            self.wf(),
            right.wf(),
            self.nrows == right.nrows,
            self.ncols + right.ncols <= usize::MAX,
            self.nrows * (self.ncols + right.ncols) <= usize::MAX,
        ensures
            r.wf(),
            r.nrows == self.nrows,
            r.ncols == self.ncols + right.ncols,
            forall|i: int, j: int| 0 <= i < r.nrows && 0 <= j < self.ncols ==> #[trigger] r.at(i, j) == self.at(i, j),
            forall|i: int, j: int| 0 <= i < r.nrows && 0 <= j < right.ncols ==> #[trigger] r.at(i, self.ncols + j) == right.at(i, j),
    {
        let c1 = self.ncols;
        let f = |i: usize, j: usize| -> (v: T)
            requires
                i < self.nrows,
                j < self.ncols + right.ncols,
            ensures
                v == (if j < c1 { self.at(i as int, j as int) } else { right.at(i as int, j - c1) }),
            {
                if j < c1 { *self.get(i, j) } else { *right.get(i, j - c1) }
            };
        let r = from_fn(self.nrows, self.ncols + right.ncols, f,
            Ghost(|i: int, j: int| if j < c1 { self.at(i, j) } else { right.at(i, j - c1) }));
        assert forall|i: int, j: int| 0 <= i < r.nrows && 0 <= j < right.ncols implies #[trigger] r.at(i, self.ncols + j) == right.at(i, j) by {
            assert(r.at(i, c1 + j) == right.at(i, (c1 + j) - c1));
        }
        r
    }

    /// `[self; below]`: the rows of `below` appended after those of `self`.
    pub fn vcat(&self, below: &RawMatrix<T>) -> (r: RawMatrix<T>)
        requires
            self.wf(),
            below.wf(),
            self.ncols == below.ncols,
            self.nrows + below.nrows <= usize::MAX,
            (self.nrows + below.nrows) * self.ncols <= usize::MAX,
        ensures
            r.wf(),
            r.nrows == self.nrows + below.nrows,
            r.ncols == self.ncols,
            forall|i: int, j: int| 0 <= i < self.nrows && 0 <= j < r.ncols ==> #[trigger] r.at(i, j) == self.at(i, j),
            forall|i: int, j: int| 0 <= i < below.nrows && 0 <= j < r.ncols ==> #[trigger] r.at(self.nrows + i, j) == below.at(i, j),
    {
        let r1 = self.nrows;
        let f = |i: usize, j: usize| -> (v: T)
            requires
                i < self.nrows + below.nrows,
                j < self.ncols,
            ensures
                v == (if i < r1 { self.at(i as int, j as int) } else { below.at(i - r1, j as int) }),
            {
                if i < r1 { *self.get(i, j) } else { *below.get(i - r1, j) }
            };
        let r = from_fn(self.nrows + below.nrows, self.ncols, f,
            Ghost(|i: int, j: int| if i < r1 { self.at(i, j) } else { below.at(i - r1, j) }));
        assert forall|i: int, j: int| 0 <= i < below.nrows && 0 <= j < r.ncols implies #[trigger] r.at(self.nrows + i, j) == below.at(i, j) by {
            assert(r.at(r1 + i, j) == below.at((r1 + i) - r1, j));
        }
        r
    }

    /// Column `j` as an `nrows × 1` matrix.
    pub fn column(&self, j: usize) -> (r: RawMatrix<T>)
        requires
            self.wf(),
            j < self.ncols,
        ensures
            r.wf(),
            r.nrows == self.nrows,
            r.ncols == 1,
            forall|i: int| 0 <= i < self.nrows ==> #[trigger] r.at(i, 0) == self.at(i, j as int),
    {
        self.block(0, j, self.nrows, 1)
    }

    /// Row `i` as a `1 × ncols` matrix.
    pub fn row(&self, i: usize) -> (r: RawMatrix<T>)
        requires
            self.wf(),
            i < self.nrows,
        ensures
            r.wf(),
            r.nrows == 1,
            r.ncols == self.ncols,
            forall|j: int| 0 <= j < self.ncols ==> #[trigger] r.at(0, j) == self.at(i as int, j),
    {
        self.block(i, 0, 1, self.ncols)
    }

    /// The main diagonal of a square matrix as an `n × 1` matrix.
    pub fn diagonal(&self) -> (r: RawMatrix<T>)
        requires
            self.wf(),
            self.nrows == self.ncols,
        ensures
            r.wf(),
            r.nrows == self.nrows,
            r.ncols == 1,
            forall|i: int| 0 <= i < self.nrows ==> #[trigger] r.at(i, 0) == self.at(i, i),
    {
        proof {
            assert(self.nrows * 1 <= self.nrows * self.ncols) by (nonlinear_arith)
                requires self.nrows == self.ncols;
        }
        let f = |i: usize, j: usize| -> (v: T)
            requires
                i < self.nrows,
                j < 1,
            ensures
                v == self.at(i as int, i as int),
            { *self.get(i, i) };
        from_fn(self.nrows, 1, f, Ghost(|i: int, j: int| self.at(i, i)))
    }

    /// The matrix with rows `a` and `b` exchanged.
    pub fn swap_rows(&mut self, a: usize, b: usize)
        requires
            old(self).wf(),
            a < old(self).nrows,
            b < old(self).nrows,
        ensures
            final(self).wf(),
            final(self).nrows == old(self).nrows,
            final(self).ncols == old(self).ncols,
            forall|i: int, j: int| 0 <= i < old(self).nrows && 0 <= j < old(self).ncols ==>
                #[trigger] final(self).at(i, j) == old(self).at(
                    if i == a { b as int } else if i == b { a as int } else { i }, j),
    {
        let ghost g = |i: int, j: int| self.at(if i == a { b as int } else if i == b { a as int } else { i }, j);
        let r = {
            let this = &*self;
            let f = |i: usize, j: usize| -> (v: T)
                requires
                    i < this.nrows,
                    j < this.ncols,
                ensures
                    v == this.at(if i == a { b as int } else if i == b { a as int } else { i as int }, j as int),
                {
                    let src = if i == a { b } else if i == b { a } else { i };
                    *this.get(src, j)
                };
            from_fn(this.nrows, this.ncols, f, Ghost(g))
        };
        *self = r;
    }

    /// The matrix with columns `a` and `b` exchanged.
    pub fn swap_columns(&mut self, a: usize, b: usize)
        requires
            old(self).wf(),
            a < old(self).ncols,
            b < old(self).ncols,
        ensures
            final(self).wf(),
            final(self).nrows == old(self).nrows,
            final(self).ncols == old(self).ncols,
            forall|i: int, j: int| 0 <= i < old(self).nrows && 0 <= j < old(self).ncols ==>
                #[trigger] final(self).at(i, j) == old(self).at(
                    i, if j == a { b as int } else if j == b { a as int } else { j }),
    {
        let ghost g = |i: int, j: int| self.at(i, if j == a { b as int } else if j == b { a as int } else { j });
        let r = {
            let this = &*self;
            let f = |i: usize, j: usize| -> (v: T)
                requires
                    i < this.nrows,
                    j < this.ncols,
                ensures
                    v == this.at(i as int, if j == a { b as int } else if j == b { a as int } else { j as int }),
                {
                    let src = if j == a { b } else if j == b { a } else { j };
                    *this.get(i, src)
                };
            from_fn(this.nrows, this.ncols, f, Ghost(g))
        };
        *self = r;
    }

    /// Writes `block` into `self` with its top-left corner at `(r0, c0)`.
    pub fn set_block(&mut self, r0: usize, c0: usize, block: &RawMatrix<T>)
        requires
            old(self).wf(),
            block.wf(),
            r0 + block.nrows <= old(self).nrows,
            c0 + block.ncols <= old(self).ncols,
        ensures
            final(self).wf(),
            final(self).nrows == old(self).nrows,
            final(self).ncols == old(self).ncols,
            forall|i: int, j: int| 0 <= i < old(self).nrows && 0 <= j < old(self).ncols ==>
                #[trigger] final(self).at(i, j) == (if r0 <= i < r0 + block.nrows && c0 <= j < c0 + block.ncols {
                    block.at(i - r0, j - c0)
                } else {
                    old(self).at(i, j)
                }),
    {
        let ghost g = |i: int, j: int| if r0 <= i < r0 + block.nrows && c0 <= j < c0 + block.ncols {
            block.at(i - r0, j - c0)
        } else {
            self.at(i, j)
        };
        let r = {
            let this = &*self;
            let f = |i: usize, j: usize| -> (v: T)
                requires
                    i < this.nrows,
                    j < this.ncols,
                ensures
                    v == (if r0 <= i < r0 + block.nrows && c0 <= j < c0 + block.ncols {
                        block.at(i - r0, j - c0)
                    } else {
                        this.at(i as int, j as int)
                    }),
                {
                    if r0 <= i && i < r0 + block.nrows && c0 <= j && j < c0 + block.ncols {
                        *block.get(i - r0, j - c0)
                    } else {
                        *this.get(i, j)
                    }
                };
            from_fn(this.nrows, this.ncols, f, Ghost(g))
        };
        *self = r;
    }

    /// The matrix with every entry strictly below the diagonal replaced by
    /// `zero`.
    pub fn upper_triangle(&self, zero: T) -> (r: RawMatrix<T>)
        requires
            self.wf(),
        ensures
            r.wf(),
            r.nrows == self.nrows,
            r.ncols == self.ncols,
            forall|i: int, j: int| 0 <= i < self.nrows && 0 <= j < self.ncols ==>
                #[trigger] r.at(i, j) == (if i <= j { self.at(i, j) } else { zero }),
    {
        let f = |i: usize, j: usize| -> (v: T)
            requires
                i < self.nrows,
                j < self.ncols,
            ensures
                v == (if i <= j { self.at(i as int, j as int) } else { zero }),
            { if i <= j { *self.get(i, j) } else { zero } };
        from_fn(self.nrows, self.ncols, f,
            Ghost(|i: int, j: int| if i <= j { self.at(i, j) } else { zero }))
    }

    /// The matrix with every entry strictly above the diagonal replaced by
    /// `zero`.
    pub fn lower_triangle(&self, zero: T) -> (r: RawMatrix<T>)
        requires
            self.wf(),
        ensures
            r.wf(),
            r.nrows == self.nrows,
            r.ncols == self.ncols,
            forall|i: int, j: int| 0 <= i < self.nrows && 0 <= j < self.ncols ==>
                #[trigger] r.at(i, j) == (if i >= j { self.at(i, j) } else { zero }),
    {
        let f = |i: usize, j: usize| -> (v: T)
            requires
                i < self.nrows,
                j < self.ncols,
            ensures
                v == (if i >= j { self.at(i as int, j as int) } else { zero }),
            { if i >= j { *self.get(i, j) } else { zero } };
        from_fn(self.nrows, self.ncols, f,
            Ghost(|i: int, j: int| if i >= j { self.at(i, j) } else { zero }))
    }

    /// The `n × n` matrix with `one` on the diagonal and `zero` elsewhere.
    pub fn identity(n: usize, zero: T, one: T) -> (r: RawMatrix<T>)
        requires
            n * n <= usize::MAX,
        ensures
            r.wf(),
            r.nrows == n,
            r.ncols == n,
            forall|i: int, j: int| 0 <= i < n && 0 <= j < n ==> #[trigger] r.at(i, j) == (if i == j { one } else { zero }),
    {
        let f = |i: usize, j: usize| -> (v: T)
            ensures
                v == (if i == j { one } else { zero }),
            { if i == j { one } else { zero } };
        from_fn(n, n, f, Ghost(|i: int, j: int| if i == j { one } else { zero }))
    }

    /// The `n × n` matrix with the entries of the column `diag` on its
    /// diagonal and `zero` elsewhere.
    pub fn from_diagonal(diag: &RawMatrix<T>, zero: T) -> (r: RawMatrix<T>)
        requires
            diag.wf(),
            diag.ncols == 1,
            diag.nrows * diag.nrows <= usize::MAX,
        ensures
            r.wf(),
            r.nrows == diag.nrows,
            r.ncols == diag.nrows,
            forall|i: int, j: int| 0 <= i < diag.nrows && 0 <= j < diag.nrows ==>
                #[trigger] r.at(i, j) == (if i == j { diag.at(i, 0) } else { zero }),
    {
        let n = diag.nrows;
        let f = |i: usize, j: usize| -> (v: T)
            requires
                i < n,
                j < n,
            ensures
                v == (if i == j { diag.at(i as int, 0) } else { zero }),
            { if i == j { *diag.get(i, 0) } else { zero } };
        from_fn(n, n, f, Ghost(|i: int, j: int| if i == j { diag.at(i, 0) } else { zero }))
    }
}

} // verus!
