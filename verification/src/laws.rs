//! Properties that relate several operations of the library.
//!
//! Each proof function states one property over the relations that the
//! operations' own contracts establish (`is_transpose`, `is_hcat`,
//! `is_block_of`, the unit lists and entry units), so that it applies to the
//! results of every call.

use vstd::prelude::*;
use crate::dims::{is_mapped, is_zip_div, spec_is_uniform, spec_product, UnitMap};
use crate::linalg::det_unit;
use crate::matrix::{
    diagonal_pattern, entry_unit, is_block_of, triangle_pattern, is_hcat, is_transpose, is_vcat, lemma_div_one,
    lemma_div_regauge, MixedUnitMatrix,
};
use crate::raw::RawMatrix;
use crate::relations::{
    add_rel, det2_rel, div_rel, inverse2_rel, is_product, lu2_pivot_solve_rel, mul_rel, product_entry_rel,
    product_step_rel, product_sums_rel, product_term_rel, small_det_rel, small_inverse_rel, small_solve_rel,
};
use crate::uniform::{repeated, UniformUnitMatrix};
use crate::unit::{
    lemma_exps_injective, spec_div, spec_inv, spec_mul, spec_one, spec_pow, Unit,
};

verus! {

/// Two lists of units with the same exponents, entry by entry, are the same
/// list.
pub proof fn lemma_units_equal(a: Seq<Unit>, b: Seq<Unit>)
    requires
        a.len() == b.len(),
        forall|k: int| 0 <= k < a.len() ==> (#[trigger] a[k]).exps() == b[k].exps(),
    ensures
        a == b,
{
    assert forall|k: int| 0 <= k < a.len() implies a[k] == b[k] by {
        lemma_exps_injective(a[k], b[k]);
    }
    assert(a =~= b);
}

/// The units form a commutative group under multiplication: products
/// commute and associate, `1` is neutral, `1 / u` is the inverse of `u`, and
/// dividing is multiplying by the inverse.
pub proof fn law_unit_group(a: Seq<int>, b: Seq<int>, c: Seq<int>)
    requires
        a.len() == 12,
    ensures
        spec_mul(a, b) == spec_mul(b, a),
        spec_mul(spec_mul(a, b), c) == spec_mul(a, spec_mul(b, c)),
        spec_mul(a, spec_one()) == a,
        spec_mul(a, spec_inv(a)) == spec_one(),
        spec_div(b, a) == spec_mul(b, spec_inv(a)),
        spec_inv(spec_inv(a)) == a,
{
    assert(spec_mul(a, b) =~= spec_mul(b, a));
    assert(spec_mul(spec_mul(a, b), c) =~= spec_mul(a, spec_mul(b, c)));
    assert(spec_mul(a, spec_one()) =~= a);
    assert(spec_mul(a, spec_inv(a)) =~= spec_one());
    assert(spec_div(b, a) =~= spec_mul(b, spec_inv(a)));
    assert(spec_inv(spec_inv(a)) =~= a);
}

/// Transposing twice gives back the matrix: the same unit lists and the same
/// entries.
pub proof fn law_transpose_twice<T>(m: MixedUnitMatrix<T>, t: MixedUnitMatrix<T>, tt: MixedUnitMatrix<T>)
    requires
        m.wf(),
        is_transpose(m, t),
        is_transpose(t, tt),
    ensures
        tt.rows() == m.rows(),
        tt.cols() == m.cols(),
        forall|i: int, j: int| 0 <= i < m.rows().len() && 0 <= j < m.cols().len() ==> #[trigger] tt.inner.at(i, j) == m.inner.at(i, j),
{
    assert forall|k: int| 0 <= k < m.rows().len() implies (#[trigger] tt.rows()[k]).exps() == m.rows()[k].exps() by {
        assert(tt.rows()[k].exps() == spec_inv(t.cols()[k].exps()));
        assert(t.cols()[k].exps() == spec_inv(m.rows()[k].exps()));
        assert(spec_inv(spec_inv(m.rows()[k].exps())) =~= m.rows()[k].exps());
    }
    assert forall|k: int| 0 <= k < m.cols().len() implies (#[trigger] tt.cols()[k]).exps() == m.cols()[k].exps() by {
        assert(tt.cols()[k].exps() == spec_inv(t.rows()[k].exps()));
        assert(t.rows()[k].exps() == spec_inv(m.cols()[k].exps()));
        assert(spec_inv(spec_inv(m.cols()[k].exps())) =~= m.cols()[k].exps());
    }
    lemma_units_equal(tt.rows(), m.rows());
    lemma_units_equal(tt.cols(), m.cols());
    assert forall|i: int, j: int| 0 <= i < m.rows().len() && 0 <= j < m.cols().len() implies #[trigger] tt.inner.at(i, j) == m.inner.at(i, j) by {
        assert(tt.inner.at(i, j) == t.inner.at(j, i));
    }
}

/// A metric shape `⟨rows, 1 / rows⟩` is its own transpose as a type: the
/// transpose has the same row and column units.
pub proof fn law_metric_self_transpose<T>(m: MixedUnitMatrix<T>, t: MixedUnitMatrix<T>)
    requires
        m.wf(),
        is_mapped(UnitMap::Reciprocal, m.rows(), m.cols()),
        is_transpose(m, t),
    ensures
        t.rows() == m.rows(),
        t.cols() == m.cols(),
{
    assert forall|k: int| 0 <= k < m.rows().len() implies (#[trigger] t.rows()[k]).exps() == m.rows()[k].exps() by {
        assert(t.rows()[k].exps() == spec_inv(m.cols()[k].exps()));
        assert(m.cols()[k].exps() == spec_inv(m.rows()[k].exps()));
        assert(spec_inv(spec_inv(m.rows()[k].exps())) =~= m.rows()[k].exps());
    }
    lemma_units_equal(t.rows(), m.rows());
    lemma_units_equal(t.cols(), m.cols());
}

/// Assembling `[a | b]` and slicing it back at the partition gives back `a`
/// and `b`, units and entries.
pub proof fn law_hcat_block_roundtrip<T>(
    a: MixedUnitMatrix<T>,
    b: MixedUnitMatrix<T>,
    r: MixedUnitMatrix<T>,
    x: MixedUnitMatrix<T>,
    y: MixedUnitMatrix<T>,
)
    requires
        a.wf(),
        b.wf(),
        a.rows() == b.rows(),
        is_hcat(r, a, b),
        is_block_of(x, r, 0, 0, a.rows().len() as int, a.cols().len() as int),
        is_block_of(y, r, 0, a.cols().len() as int, b.rows().len() as int, b.cols().len() as int),
    ensures
        x.rows() == a.rows(),
        x.cols() == a.cols(),
        y.rows() == b.rows(),
        y.cols() == b.cols(),
        forall|i: int, j: int| 0 <= i < a.rows().len() && 0 <= j < a.cols().len() ==> #[trigger] x.inner.at(i, j) == a.inner.at(i, j),
        forall|i: int, j: int| 0 <= i < b.rows().len() && 0 <= j < b.cols().len() ==> #[trigger] y.inner.at(i, j) == b.inner.at(i, j),
{
    assert(x.rows() =~= a.rows());
    assert(x.cols() =~= a.cols());
    assert(y.rows() =~= b.rows());
    assert(y.cols() =~= b.cols());
    assert forall|i: int, j: int| 0 <= i < a.rows().len() && 0 <= j < a.cols().len() implies #[trigger] x.inner.at(i, j) == a.inner.at(i, j) by {
        assert(x.inner.at(i, j) == r.inner.at(0 + i, 0 + j));
    }
    assert forall|i: int, j: int| 0 <= i < b.rows().len() && 0 <= j < b.cols().len() implies #[trigger] y.inner.at(i, j) == b.inner.at(i, j) by {
        assert(y.inner.at(i, j) == r.inner.at(0 + i, a.cols().len() + j));
    }
}

/// Stacking `[a; b]` and slicing it back at the partition gives back `a` and
/// `b`, units and entries.
pub proof fn law_vcat_block_roundtrip<T>(
    a: MixedUnitMatrix<T>,
    b: MixedUnitMatrix<T>,
    r: MixedUnitMatrix<T>,
    x: MixedUnitMatrix<T>,
    y: MixedUnitMatrix<T>,
)
    requires
        a.wf(),
        b.wf(),
        a.cols() == b.cols(),
        is_vcat(r, a, b),
        is_block_of(x, r, 0, 0, a.rows().len() as int, a.cols().len() as int),
        is_block_of(y, r, a.rows().len() as int, 0, b.rows().len() as int, b.cols().len() as int),
    ensures
        x.rows() == a.rows(),
        x.cols() == a.cols(),
        y.rows() == b.rows(),
        y.cols() == b.cols(),
        forall|i: int, j: int| 0 <= i < a.rows().len() && 0 <= j < a.cols().len() ==> #[trigger] x.inner.at(i, j) == a.inner.at(i, j),
        forall|i: int, j: int| 0 <= i < b.rows().len() && 0 <= j < b.cols().len() ==> #[trigger] y.inner.at(i, j) == b.inner.at(i, j),
{
    assert(x.rows() =~= a.rows());
    assert(x.cols() =~= a.cols());
    assert(y.rows() =~= b.rows());
    assert(y.cols() =~= b.cols());
    assert forall|i: int, j: int| 0 <= i < a.rows().len() && 0 <= j < a.cols().len() implies #[trigger] x.inner.at(i, j) == a.inner.at(i, j) by {
        assert(x.inner.at(i, j) == r.inner.at(0 + i, 0 + j));
    }
    assert forall|i: int, j: int| 0 <= i < b.rows().len() && 0 <= j < b.cols().len() implies #[trigger] y.inner.at(i, j) == b.inner.at(i, j) by {
        assert(y.inner.at(i, j) == r.inner.at(a.rows().len() + i, 0 + j));
    }
}

/// Every matrix of the library is dimensionally homogeneous: for rows `i, k`
/// and columns `j, l`, `u(i, j) · u(k, l) = u(i, l) · u(k, j)`, so two
/// columns' units stand in the same ratio in every row.
pub proof fn law_entry_units_homogeneous(rows: Seq<Unit>, cols: Seq<Unit>)
    ensures
        forall|i: int, k: int, j: int, l: int|
            0 <= i < rows.len() && 0 <= k < rows.len() && 0 <= j < cols.len() && 0 <= l < cols.len() ==>
                spec_mul(#[trigger] entry_unit(rows, cols, i, j), #[trigger] entry_unit(rows, cols, k, l))
                    == spec_mul(entry_unit(rows, cols, i, l), entry_unit(rows, cols, k, j)),
{
    assert forall|i: int, k: int, j: int, l: int|
        0 <= i < rows.len() && 0 <= k < rows.len() && 0 <= j < cols.len() && 0 <= l < cols.len() implies
            spec_mul(#[trigger] entry_unit(rows, cols, i, j), #[trigger] entry_unit(rows, cols, k, l))
                == spec_mul(entry_unit(rows, cols, i, l), entry_unit(rows, cols, k, j)) by {
        assert(spec_mul(entry_unit(rows, cols, i, j), entry_unit(rows, cols, k, l))
            =~= spec_mul(entry_unit(rows, cols, i, l), entry_unit(rows, cols, k, j)));
    }
}

/// Two matrices of one shape regauged at the same column have the same unit
/// lists exactly when they have the same entry units: this is what lets two
/// matrices that agree only up to gauge be added after anchoring both on one
/// column.
pub proof fn law_canonical_col_iff_same_entry_units(ra: Seq<Unit>, ca: Seq<Unit>, rb: Seq<Unit>, cb: Seq<Unit>, j: int)
    requires
        ra.len() == rb.len(),
        ra.len() > 0,
        ca.len() == cb.len(),
        0 <= j < ca.len(),
    ensures
        (forall|p: int, q: int| 0 <= p < ra.len() && 0 <= q < ca.len() ==> #[trigger] entry_unit(ra, ca, p, q) == entry_unit(rb, cb, p, q))
        <==> ((forall|p: int| 0 <= p < ra.len() ==> #[trigger] spec_div(ra[p].exps(), ca[j].exps()) == spec_div(rb[p].exps(), cb[j].exps()))
            && (forall|q: int| 0 <= q < ca.len() ==> #[trigger] spec_div(ca[q].exps(), ca[j].exps()) == spec_div(cb[q].exps(), cb[j].exps()))),
{
    let same_entries = forall|p: int, q: int| 0 <= p < ra.len() && 0 <= q < ca.len() ==> #[trigger] entry_unit(ra, ca, p, q) == entry_unit(rb, cb, p, q);
    let same_rows = forall|p: int| 0 <= p < ra.len() ==> #[trigger] spec_div(ra[p].exps(), ca[j].exps()) == spec_div(rb[p].exps(), cb[j].exps());
    let same_cols = forall|q: int| 0 <= q < ca.len() ==> #[trigger] spec_div(ca[q].exps(), ca[j].exps()) == spec_div(cb[q].exps(), cb[j].exps());
    if same_entries {
        assert forall|p: int| 0 <= p < ra.len() implies #[trigger] spec_div(ra[p].exps(), ca[j].exps()) == spec_div(rb[p].exps(), cb[j].exps()) by {
            assert(entry_unit(ra, ca, p, j) == entry_unit(rb, cb, p, j));
        }
        assert forall|q: int| 0 <= q < ca.len() implies #[trigger] spec_div(ca[q].exps(), ca[j].exps()) == spec_div(cb[q].exps(), cb[j].exps()) by {
            assert(entry_unit(ra, ca, 0, j) == entry_unit(rb, cb, 0, j));
            assert(entry_unit(ra, ca, 0, q) == entry_unit(rb, cb, 0, q));
            lemma_cols_from_entries(ra[0].exps(), ca[q].exps(), ca[j].exps());
            lemma_cols_from_entries(rb[0].exps(), cb[q].exps(), cb[j].exps());
        }
    }
    if same_rows && same_cols {
        assert forall|p: int, q: int| 0 <= p < ra.len() && 0 <= q < ca.len() implies #[trigger] entry_unit(ra, ca, p, q) == entry_unit(rb, cb, p, q) by {
            assert(spec_div(ra[p].exps(), ca[j].exps()) == spec_div(rb[p].exps(), cb[j].exps()));
            assert(spec_div(ca[q].exps(), ca[j].exps()) == spec_div(cb[q].exps(), cb[j].exps()));
            lemma_div_regauge(ra[p].exps(), ca[q].exps(), ca[j].exps());
            lemma_div_regauge(rb[p].exps(), cb[q].exps(), cb[j].exps());
        }
    }
}

/// `c / d = (r / d) / (r / c)`: a column unit relative to the anchor column
/// is read off two entry units of any one row.
pub proof fn lemma_cols_from_entries(r: Seq<int>, c: Seq<int>, d: Seq<int>)
    ensures
        spec_div(c, d) == spec_div(spec_div(r, d), spec_div(r, c)),
{
    assert(spec_div(c, d) =~= spec_div(spec_div(r, d), spec_div(r, c)));
}

/// Gauging a uniform matrix and collapsing it back gives the same storage
/// and the same unit.
pub proof fn law_gauge_collapse_roundtrip<T>(u: UniformUnitMatrix<T>, m: MixedUnitMatrix<T>, back: UniformUnitMatrix<T>)
    requires
        u.wf(),
        m.wf(),
        m.inner == u.inner,
        m.rows().len() > 0,
        m.cols().len() > 0,
        spec_div(m.rows()[0].exps(), m.cols()[0].exps()) == u.unit.exps(),
        back.inner == m.inner,
        back.unit.exps() == m.unit_at(0, 0),
    ensures
        back.inner == u.inner,
        back.unit == u.unit,
{
    lemma_exps_injective(back.unit, u.unit);
}

/// Every term `a(i, k) · x(k, j)` of `a · x`, for a solution `x` of
/// `a x = b`, carries the unit of `b(i, j)`.
pub proof fn law_solution_reproduces_rhs_units<T>(a: MixedUnitMatrix<T>, b: MixedUnitMatrix<T>, x: MixedUnitMatrix<T>)
    requires
        b.rows() == a.rows(),
        x.rows() == a.cols(),
        x.cols() == b.cols(),
    ensures
        forall|i: int, k: int, j: int| 0 <= i < a.rows().len() && 0 <= k < a.cols().len() && 0 <= j < b.cols().len() ==>
            spec_mul(#[trigger] a.unit_at(i, k), #[trigger] x.unit_at(k, j)) == b.unit_at(i, j),
{
    assert forall|i: int, k: int, j: int| 0 <= i < a.rows().len() && 0 <= k < a.cols().len() && 0 <= j < b.cols().len() implies
        spec_mul(#[trigger] a.unit_at(i, k), #[trigger] x.unit_at(k, j)) == b.unit_at(i, j) by {
        crate::matrix_ops::lemma_mul_cancel(a.rows()[i].exps(), a.cols()[k].exps(), b.cols()[j].exps());
    }
}

/// A matrix times its inverse is an endomorphism `⟨rows, rows⟩` whose
/// diagonal is dimensionless, as the identity's is; the inverse times the
/// matrix is `⟨cols, cols⟩`, likewise.
pub proof fn law_inverse_products_dimensionless_diagonal<T>(a: MixedUnitMatrix<T>, x: MixedUnitMatrix<T>)
    requires
        x.rows() == a.cols(),
        x.cols() == a.rows(),
    ensures
        forall|i: int| 0 <= i < a.rows().len() ==> #[trigger] entry_unit(a.rows(), x.cols(), i, i) == spec_one(),
        forall|i: int| 0 <= i < a.cols().len() ==> #[trigger] entry_unit(x.rows(), a.cols(), i, i) == spec_one(),
{
    assert forall|i: int| 0 <= i < a.rows().len() implies #[trigger] entry_unit(a.rows(), x.cols(), i, i) == spec_one() by {
        crate::matrix::lemma_div_self(a.rows()[i].exps());
    }
    assert forall|i: int| 0 <= i < a.cols().len() implies #[trigger] entry_unit(x.rows(), a.cols(), i, i) == spec_one() by {
        crate::matrix::lemma_div_self(a.cols()[i].exps());
    }
}

/// Building a diagonal matrix from an index column and reading its diagonal
/// back gives the column again: the same entries and the same units.
pub proof fn law_diagonal_roundtrip<T>(d: MixedUnitMatrix<T>, m: MixedUnitMatrix<T>, back: MixedUnitMatrix<T>, z: T)
    requires
        d.wf(),
        d.cols().len() == 1,
        m.wf(),
        m.rows() == d.rows(),
        m.cols().len() == d.rows().len(),
        forall|j: int| 0 <= j < m.cols().len() ==> (#[trigger] m.cols()[j]).exps() == spec_one(),
        diagonal_pattern(m.inner, d.inner, z),
        is_zip_div(m.rows(), m.cols(), back.rows()),
        forall|i: int| 0 <= i < m.rows().len() ==> #[trigger] back.inner.at(i, 0) == m.inner.at(i, i),
    ensures
        back.rows() == d.rows(),
        forall|i: int| 0 <= i < d.rows().len() ==> #[trigger] back.inner.at(i, 0) == d.inner.at(i, 0),
{
    assert forall|k: int| 0 <= k < back.rows().len() implies (#[trigger] back.rows()[k]).exps() == d.rows()[k].exps() by {
        lemma_div_one(d.rows()[k].exps());
    }
    lemma_units_equal(back.rows(), d.rows());
    assert forall|i: int| 0 <= i < d.rows().len() implies #[trigger] back.inner.at(i, 0) == d.inner.at(i, 0) by {
        assert(back.inner.at(i, 0) == m.inner.at(i, i));
    }
}

/// The product of `n` copies of `u` is the power `uⁿ`.
pub proof fn lemma_product_repeated(u: Unit, n: nat)
    ensures
        spec_product(repeated(u, n)) == spec_pow(u.exps(), n),
    decreases n,
{
    let l = repeated(u, n);
    if n == 0 {
        assert(spec_product(l) =~= spec_pow(u.exps(), 0)) by {
            assert forall|k: int| 0 <= k < 12 implies spec_pow(u.exps(), 0)[k] == 0 by {
                assert(u.exps()[k] * 0 == 0) by (nonlinear_arith);
            }
        }
    } else {
        let m = (n - 1) as nat;
        assert(l.subrange(1, l.len() as int) =~= repeated(u, m));
        lemma_product_repeated(u, m);
        assert forall|k: int| 0 <= k < 12 implies #[trigger] spec_product(l)[k] == spec_pow(u.exps(), n)[k] by {
            let e = u.exps()[k];
            assert(e + e * m == e * n) by (nonlinear_arith)
                requires n == m + 1;
        }
        assert(spec_product(l) =~= spec_pow(u.exps(), n));
    }
}

/// The determinant unit of a uniform matrix gauged as `⟨[r; n], [c; n]⟩` is
/// the uniform determinant unit `(r / c)ⁿ`.
pub proof fn law_gauged_determinant_unit(r: Unit, c: Unit, u: Unit, n: nat)
    requires
        u.exps() == spec_div(r.exps(), c.exps()),
    ensures
        det_unit(repeated(r, n), repeated(c, n)) == spec_product(repeated(u, n)),
{
    lemma_product_repeated(r, n);
    lemma_product_repeated(c, n);
    lemma_product_repeated(u, n);
    assert forall|k: int| 0 <= k < 12 implies #[trigger] det_unit(repeated(r, n), repeated(c, n))[k] == spec_pow(u.exps(), n)[k] by {
        let (x, y) = (r.exps()[k], c.exps()[k]);
        assert(x * n - y * n == (x - y) * n) by (nonlinear_arith);
    }
    assert(det_unit(repeated(r, n), repeated(c, n)) =~= spec_pow(u.exps(), n));
}

/// A list of `n > 0` copies of one unit is uniform, and its shared unit is
/// that unit.
pub proof fn law_repeated_is_uniform(u: Unit, n: nat)
    ensures
        spec_is_uniform(repeated(u, n)),
        n > 0 ==> repeated(u, n)[0] == u,
{
}

/// Exchanging the same two rows twice gives back the matrix.
pub proof fn law_swap_rows_twice<T>(m: RawMatrix<T>, s: RawMatrix<T>, ss: RawMatrix<T>, a: int, b: int)
    requires
        0 <= a < m.nrows,
        0 <= b < m.nrows,
        s.nrows == m.nrows,
        s.ncols == m.ncols,
        ss.nrows == m.nrows,
        ss.ncols == m.ncols,
        forall|i: int, j: int| 0 <= i < m.nrows && 0 <= j < m.ncols ==>
            #[trigger] s.at(i, j) == m.at(if i == a { b } else if i == b { a } else { i }, j),
        forall|i: int, j: int| 0 <= i < m.nrows && 0 <= j < m.ncols ==>
            #[trigger] ss.at(i, j) == s.at(if i == a { b } else if i == b { a } else { i }, j),
    ensures
        forall|i: int, j: int| 0 <= i < m.nrows && 0 <= j < m.ncols ==> #[trigger] ss.at(i, j) == m.at(i, j),
{
    assert forall|i: int, j: int| 0 <= i < m.nrows && 0 <= j < m.ncols implies #[trigger] ss.at(i, j) == m.at(i, j) by {
        let i2 = if i == a { b } else if i == b { a } else { i };
        assert(ss.at(i, j) == s.at(i2, j));
        assert(s.at(i2, j) == m.at(if i2 == a { b } else if i2 == b { a } else { i2 }, j));
    }
}

/// Exchanging the same two columns twice gives back the matrix.
pub proof fn law_swap_columns_twice<T>(m: RawMatrix<T>, s: RawMatrix<T>, ss: RawMatrix<T>, a: int, b: int)
    requires
        0 <= a < m.ncols,
        0 <= b < m.ncols,
        s.nrows == m.nrows,
        s.ncols == m.ncols,
        ss.nrows == m.nrows,
        ss.ncols == m.ncols,
        forall|i: int, j: int| 0 <= i < m.nrows && 0 <= j < m.ncols ==>
            #[trigger] s.at(i, j) == m.at(i, if j == a { b } else if j == b { a } else { j }),
        forall|i: int, j: int| 0 <= i < m.nrows && 0 <= j < m.ncols ==>
            #[trigger] ss.at(i, j) == s.at(i, if j == a { b } else if j == b { a } else { j }),
    ensures
        forall|i: int, j: int| 0 <= i < m.nrows && 0 <= j < m.ncols ==> #[trigger] ss.at(i, j) == m.at(i, j),
{
    assert forall|i: int, j: int| 0 <= i < m.nrows && 0 <= j < m.ncols implies #[trigger] ss.at(i, j) == m.at(i, j) by {
        let j2 = if j == a { b } else if j == b { a } else { j };
        assert(ss.at(i, j) == s.at(i, j2));
        assert(s.at(i, j2) == m.at(i, if j2 == a { b } else if j2 == b { a } else { j2 }));
    }
}

/// The upper and lower triangles of a matrix split it: each entry of the
/// matrix stands in place in at least one of them (the diagonal in both),
/// and off the diagonal the other triangle holds its zero there.
pub proof fn law_triangles_split_the_matrix<T>(m: RawMatrix<T>, u: RawMatrix<T>, l: RawMatrix<T>, zu: T, zl: T)
    requires
        u.nrows == m.nrows,
        u.ncols == m.ncols,
        l.nrows == m.nrows,
        l.ncols == m.ncols,
        triangle_pattern(u, m, zu, true),
        triangle_pattern(l, m, zl, false),
    ensures
        forall|i: int, j: int| 0 <= i < m.nrows && 0 <= j < m.ncols ==> {
            &&& i <= j ==> #[trigger] u.at(i, j) == m.at(i, j)
            &&& i >= j ==> l.at(i, j) == m.at(i, j)
            &&& i < j ==> l.at(i, j) == zl
            &&& i > j ==> u.at(i, j) == zu
        },
{
    assert forall|i: int, j: int| 0 <= i < m.nrows && 0 <= j < m.ncols implies {
        &&& i <= j ==> #[trigger] u.at(i, j) == m.at(i, j)
        &&& i >= j ==> l.at(i, j) == m.at(i, j)
        &&& i < j ==> l.at(i, j) == zl
        &&& i > j ==> u.at(i, j) == zu
    } by {
        assert(u.at(i, j) == (if i > j { zu } else { m.at(i, j) }));
        assert(l.at(i, j) == (if i < j { zl } else { m.at(i, j) }));
    }
}

/// The running sums of row `i` and column `j` are those of any row and
/// column with the same entries.
proof fn lemma_product_sums_transfer<T>(a: RawMatrix<T>, b: RawMatrix<T>, i: int, j: int, i2: int, j2: int, one: T, acc: Seq<T>)
    requires
        product_sums_rel(a, b, i, j, one, acc),
        forall|k: int| 0 <= k < a.ncols ==> #[trigger] a.at(i, k) == a.at(i2, k),
        forall|k: int| 0 <= k < b.nrows ==> #[trigger] b.at(k, j) == b.at(k, j2),
        a.ncols == b.nrows,
    ensures
        product_sums_rel(a, b, i2, j2, one, acc),
{
    assert(a.at(i, 0) == a.at(i2, 0));
    assert(b.at(0, j) == b.at(0, j2));
    assert forall|k: int| 1 <= k < acc.len() implies #[trigger] product_step_rel(a, b, i2, j2, one, acc, k) by {
        assert(product_step_rel(a, b, i, j, one, acc, k));
        assert(a.at(i, k) == a.at(i2, k));
        assert(b.at(k, j) == b.at(k, j2));
        let (t, kept) = choose|t: T, kept: T|
            product_term_rel(one, a.at(i, k), b.at(k, j), t) && mul_rel(one, acc[k - 1], kept) && add_rel(t, kept, acc[k]);
        assert(product_term_rel(one, a.at(i2, k), b.at(k, j2), t));
    }
}

/// Entry `(i, j)` of a product `a · b` is fixed by row `i` of `a` and column
/// `j` of `b` alone: two rows of `a` that agree give products that satisfy
/// the same relation in those rows, and so do two columns of `b` that agree.
pub proof fn law_product_entry_uses_row_and_column<T>(a: RawMatrix<T>, b: RawMatrix<T>, i: int, i2: int, j: int, j2: int, v: T)
    requires
        0 <= i < a.nrows,
        0 <= i2 < a.nrows,
        0 <= j < b.ncols,
        0 <= j2 < b.ncols,
        a.ncols == b.nrows,
        forall|k: int| 0 <= k < a.ncols ==> #[trigger] a.at(i, k) == a.at(i2, k),
        forall|k: int| 0 <= k < b.nrows ==> #[trigger] b.at(k, j) == b.at(k, j2),
    ensures
        product_entry_rel(a, b, i, j, v) == product_entry_rel(a, b, i2, j2, v),
{
    if product_entry_rel(a, b, i, j, v) {
        let (one, acc) = choose|one: T, acc: Seq<T>| product_sums_rel(a, b, i, j, one, acc) && v == acc.last();
        lemma_product_sums_transfer(a, b, i, j, i2, j2, one, acc);
    }
    if product_entry_rel(a, b, i2, j2, v) {
        let (one, acc) = choose|one: T, acc: Seq<T>| product_sums_rel(a, b, i2, j2, one, acc) && v == acc.last();
        lemma_product_sums_transfer(a, b, i2, j2, i, j, one, acc);
    }
    assert(product_entry_rel(a, b, i, j, v) == product_entry_rel(a, b, i2, j2, v));
}

/// A product whose left factor has two equal rows has those two rows
/// described by one relation, column by column; likewise for two equal
/// columns of the right factor.
pub proof fn law_product_repeats_rows_and_columns<T>(a: RawMatrix<T>, b: RawMatrix<T>, r: RawMatrix<T>, i: int, i2: int)
    requires
        is_product(a, b, r),
        a.ncols == b.nrows,
        0 <= i < a.nrows,
        0 <= i2 < a.nrows,
        forall|k: int| 0 <= k < a.ncols ==> #[trigger] a.at(i, k) == a.at(i2, k),
    ensures
        forall|j: int| 0 <= j < b.ncols ==> product_entry_rel(a, b, i, j, #[trigger] r.at(i2, j)),
{
    assert forall|j: int| 0 <= j < b.ncols implies product_entry_rel(a, b, i, j, #[trigger] r.at(i2, j)) by {
        assert(product_entry_rel(a, b, i2, j, r.at(i2, j)));
        law_product_entry_uses_row_and_column(a, b, i, i2, j, j, r.at(i2, j));
    }
}

/// The determinant of a `1 × 1` matrix is its entry, and that of a `2 × 2`
/// matrix is `m11 m22 − m21 m12`, whatever the determinant routine's
/// result satisfies of its argument.
pub proof fn law_small_determinants<T>(a: RawMatrix<T>, d: T)
    requires
        a.nrows == a.ncols,
        small_det_rel(a, d),
    ensures
        a.nrows == 1 ==> d == a.at(0, 0),
        a.nrows == 2 ==> exists|p: T, q: T|
            vstd::std_specs::ops::mul_ensures::<T>(a.at(0, 0), a.at(1, 1), p)
            && vstd::std_specs::ops::mul_ensures::<T>(a.at(1, 0), a.at(0, 1), q)
            && vstd::std_specs::ops::sub_ensures::<T>(p, q, d),
{
    if a.nrows == 2 {
        assert(det2_rel(a.at(0, 0), a.at(0, 1), a.at(1, 0), a.at(1, 1), d));
    }
}

/// The inverse of a `2 × 2` matrix keeps the diagonal entries' places
/// swapped and divides them by one shared determinant: `x11 = a22 / det`,
/// `x22 = a11 / det`, and the off-diagonal entries come from the
/// off-diagonal entries at the same places (`x12` from `a12`, `x21` from
/// `a21`), negated.
pub proof fn law_inverse_2x2<T>(a: RawMatrix<T>, x: RawMatrix<T>)
    requires
        a.nrows == 2,
        small_inverse_rel(a, x),
    ensures
        exists|d: T| {
            &&& det2_rel(a.at(0, 0), a.at(0, 1), a.at(1, 0), a.at(1, 1), d)
            &&& div_rel(a.at(1, 1), d, x.at(0, 0))
            &&& div_rel(a.at(0, 0), d, x.at(1, 1))
            &&& exists|n: T| vstd::std_specs::ops::neg_ensures::<T>(a.at(0, 1), n) && div_rel(n, d, x.at(0, 1))
            &&& exists|n: T| vstd::std_specs::ops::neg_ensures::<T>(a.at(1, 0), n) && div_rel(n, d, x.at(1, 0))
        },
{
    assert(inverse2_rel(a, x));
}

/// A solution of a `1 × 1` system is the right-hand side over the entry;
/// one of a `2 × 2` system is found by eliminating with one of the matrix's
/// own rows as pivot row, reading the matrix row by row (not its transpose).
pub proof fn law_small_solutions<T>(a: RawMatrix<T>, b: RawMatrix<T>, x: RawMatrix<T>)
    requires
        a.nrows == a.ncols,
        small_solve_rel(a, b, x),
    ensures
        a.nrows == 1 ==> forall|j: int| 0 <= j < b.ncols ==> div_rel(b.at(0, j), a.at(0, 0), #[trigger] x.at(0, j)),
        a.nrows == 2 ==> lu2_pivot_solve_rel(a, b, x, 0, 1) || lu2_pivot_solve_rel(a, b, x, 1, 0),
{
}

} // verus!
