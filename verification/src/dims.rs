//! Dimension lists.
//!
//! A matrix carries a list of row units and a list of column units; entry
//! `(i, j)` has the unit `rows[i] / cols[j]`. This module provides the list
//! operations the matrix types are built from: concatenation, mapping a unit
//! transformation over a list, element-wise quotients and products, slicing,
//! uniformity tests and the products that give determinant units.

use vstd::prelude::*;
use crate::unit::{
    exps_within, lemma_exps_injective, spec_div, spec_inv, spec_mul, spec_one, spec_same_dimension, Unit,
};

verus! {

/// Every unit of the list lies in the operating range of the unit algebra.
pub open spec fn list_operable(l: Seq<Unit>) -> bool {
    forall|i: int| 0 <= i < l.len() ==> (#[trigger] l[i]).operable()
}

/// A transformation applied to every unit of a list.
#[derive(Clone, Copy, Debug)]
pub enum UnitMap {
    /// `u ↦ 1 / u` (used by the transpose).
    Reciprocal,
    /// `u ↦ u · v` (scaling rows by a quantity of unit `v`).
    MulBy(Unit),
    /// `u ↦ u / v` (dividing rows by a quantity of unit `v`, regauging).
    DivBy(Unit),
    /// `u ↦ 1` (a dimensionless pivot axis of the same length).
    ToDimensionless,
}

impl UnitMap {
    /// The map can be applied to `u` without leaving the unit algebra's range.
    pub open spec fn applies_to(self, u: Unit) -> bool {
        match self {
            UnitMap::Reciprocal => u.operable(),
            UnitMap::MulBy(v) => u.operable() && v.operable(),
            UnitMap::DivBy(v) => u.operable() && v.operable(),
            UnitMap::ToDimensionless => true,
        }
    }

    /// The exponents of the image of a unit with exponents `e`.
    pub open spec fn spec_apply(self, e: Seq<int>) -> Seq<int> {
        match self {
            UnitMap::Reciprocal => spec_inv(e),
            UnitMap::MulBy(v) => spec_mul(e, v.exps()),
            UnitMap::DivBy(v) => spec_div(e, v.exps()),
            UnitMap::ToDimensionless => spec_one(),
        }
    }

    /// Applies the transformation to one unit.
    pub fn apply(&self, u: &Unit) -> (r: Unit)
        requires
            self.applies_to(*u),
        ensures
            r.exps() == self.spec_apply(u.exps()),
    {
        match self {
            UnitMap::Reciprocal => u.inv(),
            UnitMap::MulBy(v) => u.mul(v),
            UnitMap::DivBy(v) => u.div(v),
            UnitMap::ToDimensionless => Unit::dimensionless(),
        }
    }
}

/// `r` is `l` with `f` applied to every entry.
pub open spec fn is_mapped(f: UnitMap, l: Seq<Unit>, r: Seq<Unit>) -> bool {
    &&& r.len() == l.len()
    &&& forall|i: int| 0 <= i < l.len() ==> (#[trigger] r[i]).exps() == f.spec_apply(l[i].exps())
}

/// `f` can be applied to every entry of `l`.
pub open spec fn map_applies(f: UnitMap, l: Seq<Unit>) -> bool {
    forall|i: int| 0 <= i < l.len() ==> f.applies_to(#[trigger] l[i])
}

/// `r` is the element-wise quotient `a[i] / b[i]`.
pub open spec fn is_zip_div(a: Seq<Unit>, b: Seq<Unit>, r: Seq<Unit>) -> bool {
    &&& r.len() == a.len()
    &&& forall|i: int| 0 <= i < a.len() ==> (#[trigger] r[i]).exps() == spec_div(a[i].exps(), b[i].exps())
}

/// `r` is the element-wise product `a[i] · b[i]`.
pub open spec fn is_zip_mul(a: Seq<Unit>, b: Seq<Unit>, r: Seq<Unit>) -> bool {
    &&& r.len() == a.len()
    &&& forall|i: int| 0 <= i < a.len() ==> (#[trigger] r[i]).exps() == spec_mul(a[i].exps(), b[i].exps())
}

/// The list is made of a single repeated unit (empty and one-entry lists are).
pub open spec fn spec_is_uniform(l: Seq<Unit>) -> bool {
    forall|i: int, j: int| 0 <= i < l.len() && 0 <= j < l.len() ==> #[trigger] l[i] == #[trigger] l[j]
}

/// Exponent sum of the units of `l` (the exponents of their product).
pub open spec fn spec_product(l: Seq<Unit>) -> Seq<int>
    decreases l.len(),
{
    if l.len() == 0 {
        spec_one()
    } else {
        spec_mul(l[0].exps(), spec_product(l.subrange(1, l.len() as int)))
    }
}

/// Each partial product formed while folding `l` from the right stays within
/// the operating range, as does every entry: the list's product is defined.
pub open spec fn product_defined(l: Seq<Unit>) -> bool {
    &&& list_operable(l)
    &&& forall|j: int| 1 <= j <= l.len() ==> exps_within(#[trigger] spec_product(l.subrange(j, l.len() as int)), 200)
}

/// The concatenation of two dimension lists: `a` followed by `b`.
pub fn concat(a: &Vec<Unit>, b: &Vec<Unit>) -> (r: Vec<Unit>)
    requires
        a.len() + b.len() <= usize::MAX,
    ensures
        r@ == a@ + b@,
{
    let mut r: Vec<Unit> = Vec::new();
    let mut i: usize = 0;
    while i < a.len()
        invariant
            i <= a.len(),
            r@ == a@.subrange(0, i as int),
        decreases a.len() - i,
    {
        r.push(a[i]);
        i += 1;
        assert(r@ =~= a@.subrange(0, i as int));
    }
    let mut j: usize = 0;
    while j < b.len()
        invariant
            j <= b.len(),
            i == a.len(),
            r@ == a@ + b@.subrange(0, j as int),
        decreases b.len() - j,
    {
        r.push(b[j]);
        j += 1;
        assert(r@ =~= a@ + b@.subrange(0, j as int));
    }
    assert(a@.subrange(0, a.len() as int) =~= a@);
    assert(b@.subrange(0, b.len() as int) =~= b@);
    r
}

/// An owned copy of a list.
pub fn copy_list(l: &Vec<Unit>) -> (r: Vec<Unit>)
    ensures
        r@ == l@,
{
    sliced(l, 0, l.len())
}

/// Applies `f` to every entry of `l`.
pub fn map_units(f: &UnitMap, l: &Vec<Unit>) -> (r: Vec<Unit>)
    requires
        map_applies(*f, l@),
    ensures
        is_mapped(*f, l@, r@),
{
    let mut r: Vec<Unit> = Vec::new();
    let mut i: usize = 0;
    while i < l.len()
        invariant
            i <= l.len(),
            map_applies(*f, l@),
            r.len() == i,
            forall|k: int| 0 <= k < i ==> (#[trigger] r@[k]).exps() == f.spec_apply(l@[k].exps()),
        decreases l.len() - i,
    {
        let u = f.apply(&l[i]);
        r.push(u);
        i += 1;
    }
    r
}

/// The element-wise quotient `a[i] / b[i]` of two lists of equal length.
pub fn zip_div(a: &Vec<Unit>, b: &Vec<Unit>) -> (r: Vec<Unit>)
    requires
        a.len() == b.len(),
        list_operable(a@),
        list_operable(b@),
    ensures
        is_zip_div(a@, b@, r@),
{
    let mut r: Vec<Unit> = Vec::new();
    let mut i: usize = 0;
    while i < a.len()
        invariant
            i <= a.len(),
            a.len() == b.len(),
            list_operable(a@),
            list_operable(b@),
            r.len() == i,
            forall|k: int| 0 <= k < i ==> (#[trigger] r@[k]).exps() == spec_div(a@[k].exps(), b@[k].exps()),
        decreases a.len() - i,
    {
        r.push(a[i].div(&b[i]));
        i += 1;
    }
    r
}

/// The element-wise product `a[i] · b[i]` of two lists of equal length.
pub fn zip_mul(a: &Vec<Unit>, b: &Vec<Unit>) -> (r: Vec<Unit>)
    requires
        a.len() == b.len(),
        list_operable(a@),
        list_operable(b@),
    ensures
        is_zip_mul(a@, b@, r@),
{
    let mut r: Vec<Unit> = Vec::new();
    let mut i: usize = 0;
    while i < a.len()
        invariant
            i <= a.len(),
            a.len() == b.len(),
            list_operable(a@),
            list_operable(b@),
            r.len() == i,
            forall|k: int| 0 <= k < i ==> (#[trigger] r@[k]).exps() == spec_mul(a@[k].exps(), b@[k].exps()),
        decreases a.len() - i,
    {
        r.push(a[i].mul(&b[i]));
        i += 1;
    }
    r
}

/// The dimensionless pivot axis of a thin factorization of a matrix with row
/// list `rows` and column list `cols`: `min(len(rows), len(cols))` copies of
/// the unit `1`.
pub fn pivot_dims(rows: &Vec<Unit>, cols: &Vec<Unit>) -> (r: Vec<Unit>)
    ensures
        r.len() == if rows.len() <= cols.len() { rows.len() } else { cols.len() },
        forall|i: int| 0 <= i < r.len() ==> (#[trigger] r@[i]).exps() == spec_one(),
{
    let n = if rows.len() <= cols.len() { rows.len() } else { cols.len() };
    repeat(&Unit::dimensionless(), n)
}

/// The list of `n` copies of `u`.
pub fn repeat(u: &Unit, n: usize) -> (r: Vec<Unit>)
    ensures
        r@ == Seq::new(n as nat, |i: int| *u),
{
    let mut r: Vec<Unit> = Vec::new();
    let mut i: usize = 0;
    while i < n
        invariant
            i <= n,
            r@ == Seq::new(i as nat, |k: int| *u),
        decreases n - i,
    {
        r.push(*u);
        i += 1;
        assert(r@ =~= Seq::new(i as nat, |k: int| *u));
    }
    r
}

/// The entry at position `i`.
pub fn elem_at(l: &Vec<Unit>, i: usize) -> (r: Unit)
    requires
        i < l.len(),
    ensures
        r == l@[i as int],
{
    l[i]
}

/// The first `n` entries of `l`.
pub fn take(l: &Vec<Unit>, n: usize) -> (r: Vec<Unit>)
    requires
        n <= l.len(),
    ensures
        r@ == l@.subrange(0, n as int),
{
    sliced(l, 0, n)
}

/// `l` without its first `n` entries.
pub fn drop(l: &Vec<Unit>, n: usize) -> (r: Vec<Unit>)
    requires
        n <= l.len(),
    ensures
        r@ == l@.subrange(n as int, l.len() as int),
{
    sliced(l, n, l.len() - n)
}

/// The `len` entries of `l` starting at `off`.
pub fn sliced(l: &Vec<Unit>, off: usize, len: usize) -> (r: Vec<Unit>)
    requires
        off + len <= l.len(),
    ensures
        r@ == l@.subrange(off as int, off + len),
{
    let mut r: Vec<Unit> = Vec::new();
    let mut i: usize = 0;
    while i < len
        invariant
            i <= len,
            off + len <= l.len(),
            r@ == l@.subrange(off as int, off + i),
        decreases len - i,
    {
        r.push(l[off + i]);
        i += 1;
        assert(r@ =~= l@.subrange(off as int, off + i));
    }
    r
}

/// Whether every entry of `l` is the same unit.
pub fn is_uniform(l: &Vec<Unit>) -> (r: bool)
    ensures
        r == spec_is_uniform(l@),
{
    if l.len() == 0 {
        return true;
    }
    let mut i: usize = 1;
    while i < l.len()
        invariant
            1 <= i <= l.len(),
            forall|k: int| 0 <= k < i ==> #[trigger] l@[k] == l@[0],
        decreases l.len() - i,
    {
        if !l[i].unit_eq(&l[0]) {
            proof {
                lemma_exps_injective(l@[i as int], l@[0]);
                assert(!(l@[i as int] == l@[0]));
            }
            return false;
        }
        proof {
            lemma_exps_injective(l@[i as int], l@[0]);
        }
        i += 1;
    }
    true
}

/// The single unit shared by every entry of a non-empty uniform list, or
/// `None` when the list is empty or mixed.
pub fn collapse_uniform(l: &Vec<Unit>) -> (r: Option<Unit>)
    ensures
        r is Some <==> l.len() > 0 && spec_is_uniform(l@),
        r matches Some(u) ==> forall|i: int| 0 <= i < l.len() ==> #[trigger] l@[i] == u,
{
    if l.len() > 0 && is_uniform(l) {
        Some(l[0])
    } else {
        None
    }
}

/// Whether the candidate entry unit `q` reproduces the target unit `u`, the
/// consistency condition for giving a uniform block a row/column gauge.
pub fn gauge_reproduces(q: &Unit, u: &Unit) -> (r: bool)
    ensures
        r == (q == u),
{
    let r = q.unit_eq(u);
    proof {
        lemma_exps_injective(*q, *u);
    }
    r
}

/// The shared diagonal unit `rows[i] / cols[i]` of a square pair of lists,
/// when every diagonal entry carries the same unit; `None` when the lists
/// differ in length, are empty, or the diagonal is mixed.
pub fn uniform_diag(rows: &Vec<Unit>, cols: &Vec<Unit>) -> (r: Option<Unit>)
    requires
        list_operable(rows@),
        list_operable(cols@),
    ensures
        r is Some <==> (rows.len() == cols.len() && rows.len() > 0 && forall|i: int|
            0 <= i < rows.len() ==> spec_div(#[trigger] rows@[i].exps(), cols@[i].exps())
                == spec_div(rows@[0].exps(), cols@[0].exps())),
        r matches Some(u) ==> u.exps() == spec_div(rows@[0].exps(), cols@[0].exps()),
{
    if rows.len() != cols.len() || rows.len() == 0 {
        return None;
    }
    let d = zip_div(rows, cols);
    let first = d[0];
    let mut i: usize = 1;
    while i < d.len()
        invariant
            1 <= i <= d.len(),
            d.len() == rows.len(),
            rows.len() == cols.len(),
            first == d@[0],
            is_zip_div(rows@, cols@, d@),
            forall|k: int| 0 <= k < i ==> (#[trigger] d@[k]).exps() == first.exps(),
        decreases d.len() - i,
    {
        if !d[i].unit_eq(&first) {
            proof {
                assert(spec_div(rows@[i as int].exps(), cols@[i as int].exps()) != spec_div(
                    rows@[0].exps(),
                    cols@[0].exps(),
                ));
            }
            return None;
        }
        i += 1;
    }
    proof {
        assert forall|k: int| 0 <= k < rows.len() implies spec_div(
            #[trigger] rows@[k].exps(),
            cols@[k].exps(),
        ) == spec_div(rows@[0].exps(), cols@[0].exps()) by {
            assert(d@[k].exps() == first.exps());
        }
    }
    Some(first)
}

/// Whether `⟨rows, cols⟩` is a metric shape: the columns are the reciprocals
/// of the rows (`cols = 1 / rows`), so the matrix is its own transpose as a
/// type.
pub fn is_metric_shape(rows: &Vec<Unit>, cols: &Vec<Unit>) -> (r: bool)
    requires
        list_operable(rows@),
    ensures
        r == (rows.len() == cols.len() && forall|i: int|
            0 <= i < rows.len() ==> (#[trigger] cols@[i]).exps() == spec_inv(rows@[i].exps())),
{
    if rows.len() != cols.len() {
        return false;
    }
    let mut i: usize = 0;
    while i < rows.len()
        invariant
            i <= rows.len(),
            rows.len() == cols.len(),
            list_operable(rows@),
            forall|k: int| 0 <= k < i ==> (#[trigger] cols@[k]).exps() == spec_inv(rows@[k].exps()),
        decreases rows.len() - i,
    {
        let inv = rows[i].inv();
        if !cols[i].unit_eq(&inv) {
            return false;
        }
        i += 1;
    }
    true
}

/// The outer product of two lists: entry `i · len(b) + k` is `a[i] · b[k]`.
pub fn cross_mul(a: &Vec<Unit>, b: &Vec<Unit>) -> (r: Vec<Unit>)
    requires
        a.len() * b.len() <= usize::MAX,
        list_operable(a@),
        list_operable(b@),
    ensures
        r.len() == a.len() * b.len(),
        forall|i: int, k: int|
            0 <= i < a.len() && 0 <= k < b.len() ==> #[trigger] r@[i * b.len() + k].exps()
                == spec_mul(a@[i].exps(), b@[k].exps()),
{
    let mut r: Vec<Unit> = Vec::new();
    let n = b.len();
    let mut i: usize = 0;
    while i < a.len()
        invariant
            i <= a.len(),
            n == b.len(),
            a.len() * n <= usize::MAX,
            list_operable(a@),
            list_operable(b@),
            r.len() == i * n,
            forall|p: int, k: int|
                0 <= p < i && 0 <= k < n ==> #[trigger] r@[p * n + k].exps() == spec_mul(
                    a@[p].exps(),
                    b@[k].exps(),
                ),
        decreases a.len() - i,
    {
        let mut k: usize = 0;
        while k < n
            invariant
                i < a.len(),
                k <= n,
                n == b.len(),
                a.len() * n <= usize::MAX,
                list_operable(a@),
                list_operable(b@),
                r.len() == i * n + k,
                forall|p: int, q: int|
                    0 <= p < i && 0 <= q < n ==> #[trigger] r@[p * n + q].exps() == spec_mul(
                        a@[p].exps(),
                        b@[q].exps(),
                    ),
                forall|q: int| 0 <= q < k ==> #[trigger] r@[i * n + q].exps() == spec_mul(
                    a@[i as int].exps(),
                    b@[q].exps(),
                ),
            decreases n - k,
        {
            proof {
                assert((i + 1) * n <= a.len() * n) by (nonlinear_arith)
                    requires i + 1 <= a.len();
            }
            let u = a[i].mul(&b[k]);
            r.push(u);
            proof {
                assert forall|p: int, q: int| 0 <= p < i && 0 <= q < n implies #[trigger] r@[p
                    * n + q].exps() == spec_mul(a@[p].exps(), b@[q].exps()) by {
                    assert(p * n + q < i * n) by (nonlinear_arith)
                        requires p < i, q < n;
                }
            }
            k += 1;
        }
        proof {
            assert((i + 1) * n == i * n + n) by (nonlinear_arith);
            assert forall|p: int, q: int| 0 <= p < i + 1 && 0 <= q < n implies #[trigger] r@[p
                * n + q].exps() == spec_mul(a@[p].exps(), b@[q].exps()) by {
                if p == i {
                    assert(r@[i * n + q] == r@[p * n + q]);
                }
            }
        }
        i += 1;
    }
    r
}

/// The product of every unit of `l` (the unit `1` for the empty list): the
/// unit shared by every term of a determinant expansion.
pub fn product(l: &Vec<Unit>) -> (r: Unit)
    requires
        product_defined(l@),
    ensures
        r.exps() == spec_product(l@),
{
    let n = l.len();
    let mut acc = Unit::dimensionless();
    let mut j: usize = n;
    assert(l@.subrange(n as int, n as int) =~= Seq::<Unit>::empty());
    while j > 0
        invariant
            j <= n,
            n == l.len(),
            product_defined(l@),
            acc.exps() == spec_product(l@.subrange(j as int, n as int)),
        decreases j,
    {
        let ghost tail = l@.subrange(j as int, n as int);
        let ghost s = l@.subrange(j - 1, n as int);
        assert(s.subrange(1, s.len() as int) =~= tail);
        assert(s[0] == l@[j - 1]);
        proof {
            if j < n {
                assert(exps_within(spec_product(l@.subrange(j as int, n as int)), 200));
            } else {
                assert(exps_within(spec_one(), 200));
            }
        }
        acc = l[j - 1].mul(&acc);
        j -= 1;
    }
    assert(l@.subrange(0, n as int) =~= l@);
    acc
}

/// Whether each unit of `from` can be rescaled to the unit at the same
/// position of `to`: the lists have one length and agree in dimension entry
/// by entry (they may differ in scale).
pub fn rescalable(from: &Vec<Unit>, to: &Vec<Unit>) -> (r: bool)
    ensures
        r == (from.len() == to.len() && forall|i: int| 0 <= i < from.len() ==>
            spec_same_dimension(#[trigger] from@[i].exps(), to@[i].exps())),
{
    if from.len() != to.len() {
        return false;
    }
    let mut i: usize = 0;
    while i < from.len()
        invariant
            i <= from.len(),
            from.len() == to.len(),
            forall|k: int| 0 <= k < i ==> spec_same_dimension(#[trigger] from@[k].exps(), to@[k].exps()),
        decreases from.len() - i,
    {
        if !from[i].same_dimension(&to[i]) {
            return false;
        }
        i += 1;
    }
    true
}

} // verus!
