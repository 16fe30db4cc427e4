//! What the backend's small-matrix formulas compute, over the scalar type's
//! own operations.
//!
//! The scalar type is generic, so its arithmetic is described the way vstd
//! describes floating point: `x + y`, `x - y`, `x * y`, `x / y` and `-x` are
//! related to their result by vstd's relations (`add_ensures` and the like),
//! which say that the result is what the type's operation gives. A formula
//! below is a chain of such steps; each intermediate value is one that the
//! chain names and pins down by the step that produces it.

use vstd::prelude::*;
use crate::raw::RawMatrix;

verus! {

/// `o` is `x * y` in the scalar type.
pub open spec fn mul_rel<T>(x: T, y: T, o: T) -> bool {
    vstd::std_specs::ops::mul_ensures::<T>(x, y, o)
}

/// `o` is `x - y` in the scalar type.
pub open spec fn sub_rel<T>(x: T, y: T, o: T) -> bool {
    vstd::std_specs::ops::sub_ensures::<T>(x, y, o)
}

/// `o` is `x + y` in the scalar type.
pub open spec fn add_rel<T>(x: T, y: T, o: T) -> bool {
    vstd::std_specs::ops::add_ensures::<T>(x, y, o)
}

/// `o` is `x / y` in the scalar type.
pub open spec fn div_rel<T>(x: T, y: T, o: T) -> bool {
    vstd::std_specs::ops::div_ensures::<T>(x, y, o)
}

/// `o` is `-x` in the scalar type.
pub open spec fn neg_rel<T>(x: T, o: T) -> bool {
    vstd::std_specs::ops::neg_ensures::<T>(x, o)
}

/// `d = m11 · m22 − m21 · m12`: the determinant of `[[m11, m12], [m21, m22]]`
/// as written out with the scalar operations.
pub open spec fn det2_rel<T>(m11: T, m12: T, m21: T, m22: T, d: T) -> bool {
    exists|p: T, q: T| mul_rel(m11, m22, p) && mul_rel(m21, m12, q) && sub_rel(p, q, d)
}

/// `d = m11 · c1 − m12 · c2 + m13 · c3` for the first row `m11, m12, m13`
/// of a `3 × 3` matrix and its cofactor minors `c1, c2, c3`.
pub open spec fn cofactor_sum_rel<T>(m11: T, m12: T, m13: T, c1: T, c2: T, c3: T, d: T) -> bool {
    exists|t1: T, t2: T, t3: T, s: T|
        mul_rel(m11, c1, t1) && mul_rel(m12, c2, t2) && mul_rel(m13, c3, t3) && sub_rel(t1, t2, s) && add_rel(s, t3, d)
}

/// The three minors of the first row of the `3 × 3` matrix `a`:
/// `c1 = a22 a33 − a32 a23`, `c2 = a21 a33 − a31 a23`, `c3 = a21 a32 − a31 a22`.
pub open spec fn minors3_rel<T>(a: RawMatrix<T>, c1: T, c2: T, c3: T) -> bool {
    &&& det2_rel(a.at(1, 1), a.at(1, 2), a.at(2, 1), a.at(2, 2), c1)
    &&& det2_rel(a.at(1, 0), a.at(1, 2), a.at(2, 0), a.at(2, 2), c2)
    &&& det2_rel(a.at(1, 0), a.at(1, 1), a.at(2, 0), a.at(2, 1), c3)
}

/// `d` is the determinant of the `3 × 3` matrix `a` by cofactor expansion
/// along its first row.
pub open spec fn det3_rel<T>(a: RawMatrix<T>, d: T) -> bool {
    exists|c1: T, c2: T, c3: T|
        minors3_rel(a, c1, c2, c3) && cofactor_sum_rel(a.at(0, 0), a.at(0, 1), a.at(0, 2), c1, c2, c3, d)
}

/// `d` is the determinant of the square `a` of size at most 3, by its
/// formula: the entry, `ad − cb`, or the cofactor expansion.
pub open spec fn small_det_rel<T>(a: RawMatrix<T>, d: T) -> bool {
    &&& a.nrows == 1 ==> d == a.at(0, 0)
    &&& a.nrows == 2 ==> det2_rel(a.at(0, 0), a.at(0, 1), a.at(1, 0), a.at(1, 1), d)
    &&& a.nrows == 3 ==> det3_rel(a, d)
}

/// `v = (-x) / d`.
pub open spec fn neg_div_rel<T>(x: T, d: T, v: T) -> bool {
    exists|n: T| neg_rel(x, n) && div_rel(n, d, v)
}

/// `v = (x11 x22 − x21 x12) / d`.
pub open spec fn det2_div_rel<T>(x11: T, x12: T, x21: T, x22: T, d: T, v: T) -> bool {
    exists|e: T| det2_rel(x11, x12, x21, x22, e) && div_rel(e, d, v)
}

/// `m` is the inverse of the `2 × 2` matrix `a` by the adjugate formula:
/// `[[a22, −a12], [−a21, a11]] / det`.
pub open spec fn inverse2_rel<T>(a: RawMatrix<T>, m: RawMatrix<T>) -> bool {
    exists|d: T|
        det2_rel(a.at(0, 0), a.at(0, 1), a.at(1, 0), a.at(1, 1), d)
        && div_rel(a.at(1, 1), d, m.at(0, 0))
        && neg_div_rel(a.at(0, 1), d, m.at(0, 1))
        && neg_div_rel(a.at(1, 0), d, m.at(1, 0))
        && div_rel(a.at(0, 0), d, m.at(1, 1))
}

/// `m` is the inverse of the `3 × 3` matrix `a` by the adjugate formula: each
/// entry is a signed `2 × 2` minor of `a` (taken at the transposed position)
/// over the determinant.
pub open spec fn inverse3_rel<T>(a: RawMatrix<T>, m: RawMatrix<T>) -> bool {
    exists|c1: T, c2: T, c3: T, d: T| {
        &&& minors3_rel(a, c1, c2, c3)
        &&& cofactor_sum_rel(a.at(0, 0), a.at(0, 1), a.at(0, 2), c1, c2, c3, d)
        &&& div_rel(c1, d, m.at(0, 0))
        &&& det2_div_rel(a.at(0, 2), a.at(0, 1), a.at(2, 2), a.at(2, 1), d, m.at(0, 1))
        &&& det2_div_rel(a.at(0, 1), a.at(0, 2), a.at(1, 1), a.at(1, 2), d, m.at(0, 2))
        &&& neg_div_rel(c2, d, m.at(1, 0))
        &&& det2_div_rel(a.at(0, 0), a.at(0, 2), a.at(2, 0), a.at(2, 2), d, m.at(1, 1))
        &&& det2_div_rel(a.at(0, 2), a.at(0, 0), a.at(1, 2), a.at(1, 0), d, m.at(1, 2))
        &&& div_rel(c3, d, m.at(2, 0))
        &&& det2_div_rel(a.at(0, 1), a.at(0, 0), a.at(2, 1), a.at(2, 0), d, m.at(2, 1))
        &&& det2_div_rel(a.at(0, 0), a.at(0, 1), a.at(1, 0), a.at(1, 1), d, m.at(2, 2))
    }
}

/// `m` is the inverse of the square `a` of size at most 3, by its formula:
/// `1 / a11` (with the scalar type's one), the `2 × 2` or the `3 × 3`
/// adjugate formula.
pub open spec fn small_inverse_rel<T>(a: RawMatrix<T>, m: RawMatrix<T>) -> bool {
    &&& a.nrows == 1 ==> exists|one: T| div_rel(one, a.at(0, 0), m.at(0, 0))
    &&& a.nrows == 2 ==> inverse2_rel(a, m)
    &&& a.nrows == 3 ==> inverse3_rel(a, m)
}

/// `t = (one · x) · y`: one term of a product entry as the backend forms it.
pub open spec fn product_term_rel<T>(one: T, x: T, y: T, t: T) -> bool {
    exists|s: T| mul_rel(one, x, s) && mul_rel(s, y, t)
}

/// `acc` is the running sum of the terms `a(i, k) · b(k, j)`, `k = 0, 1, …`:
/// its first element is the first term, and each later one is the next term
/// plus the one before (scaled by `one`).
pub open spec fn product_sums_rel<T>(a: RawMatrix<T>, b: RawMatrix<T>, i: int, j: int, one: T, acc: Seq<T>) -> bool {
    &&& acc.len() == a.ncols
    &&& acc.len() > 0
    &&& product_term_rel(one, a.at(i, 0), b.at(0, j), acc[0])
    &&& forall|k: int| 1 <= k < acc.len() ==> #[trigger] product_step_rel(a, b, i, j, one, acc, k)
}

/// `acc[k] = a(i, k) · b(k, j) + acc[k − 1]`, as the backend forms it.
pub open spec fn product_step_rel<T>(a: RawMatrix<T>, b: RawMatrix<T>, i: int, j: int, one: T, acc: Seq<T>, k: int) -> bool {
    exists|t: T, kept: T|
        product_term_rel(one, a.at(i, k), b.at(k, j), t) && mul_rel(one, acc[k - 1], kept) && add_rel(t, kept, acc[k])
}

/// `v` is entry `(i, j)` of the product `a · b`: the sum, in order, of
/// row `i` of `a` times column `j` of `b`.
pub open spec fn product_entry_rel<T>(a: RawMatrix<T>, b: RawMatrix<T>, i: int, j: int, v: T) -> bool {
    exists|one: T, acc: Seq<T>| product_sums_rel(a, b, i, j, one, acc) && v == acc.last()
}

/// The product `a · b` is taken entry by entry in the order written (the
/// backend's small-matrix path): not when all of `a`'s rows, `a`'s columns
/// and `b`'s columns exceed 5, where nalgebra hands `f32` and `f64` products
/// to matrixmultiply, whose kernel is chosen by the processor.
pub open spec fn product_in_order(nrows: int, inner: int, ncols: int) -> bool {
    inner > 0 && !(nrows > 5 && inner > 5 && ncols > 5)
}

/// `r` is the product `a · b`, entry by entry.
pub open spec fn is_product<T>(a: RawMatrix<T>, b: RawMatrix<T>, r: RawMatrix<T>) -> bool {
    forall|i: int, j: int| 0 <= i < a.nrows && 0 <= j < b.ncols ==> product_entry_rel(a, b, i, j, #[trigger] r.at(i, j))
}

/// `out = ((−c) · x) · one + one · y`: one `axpy` step of the backend's
/// elimination and substitution.
pub open spec fn axpy_step_rel<T>(c: T, x: T, one: T, y: T, out: T) -> bool {
    exists|n: T, t1: T, t2: T, t3: T|
        neg_rel(c, n) && mul_rel(n, x, t1) && mul_rel(t1, one, t2) && mul_rel(one, y, t3) && add_rel(t2, t3, out)
}

/// `x` solves `a x = b` for the `2 × 2` matrix `a` by Gaussian elimination
/// with the pivot row `p` of the first column (the other row is `o`):
/// `l = a(o, 0) · (one / a(p, 0))`, `u = a(o, 1) − l · a(p, 1)`, then for each
/// column `j` forward substitution `y = b(o, j) − l · b(p, j)` and back
/// substitution `x(1, j) = y / u`, `x(0, j) = (b(p, j) − a(p, 1) · x(1, j)) / a(p, 0)`.
pub open spec fn lu2_pivot_solve_rel<T>(a: RawMatrix<T>, b: RawMatrix<T>, x: RawMatrix<T>, p: int, o: int) -> bool {
    exists|one: T, inv: T, l: T, u: T| {
        &&& div_rel(one, a.at(p, 0), inv)
        &&& mul_rel(a.at(o, 0), inv, l)
        &&& axpy_step_rel(a.at(p, 1), l, one, a.at(o, 1), u)
        &&& forall|j: int| 0 <= j < b.ncols ==> exists|q: T, y1: T, y0: T| {
            &&& div_rel(b.at(p, j), one, q)
            &&& axpy_step_rel(q, l, one, b.at(o, j), y1)
            &&& div_rel(y1, u, #[trigger] x.at(1, j))
            &&& axpy_step_rel(x.at(1, j), a.at(p, 1), one, b.at(p, j), y0)
            &&& div_rel(y0, a.at(p, 0), x.at(0, j))
        }
    }
}

/// `x` solves `a x = b` for the square `a` of size 1 or 2 the way the
/// backend's partial-pivoting LU does: `b / a11` for size 1, and elimination
/// with one of the two rows as pivot for size 2 (the backend picks the row of
/// larger magnitude).
pub open spec fn small_solve_rel<T>(a: RawMatrix<T>, b: RawMatrix<T>, x: RawMatrix<T>) -> bool {
    &&& a.nrows == 1 ==> forall|j: int| 0 <= j < b.ncols ==> div_rel(b.at(0, j), a.at(0, 0), #[trigger] x.at(0, j))
    &&& a.nrows == 2 ==> lu2_pivot_solve_rel(a, b, x, 0, 1) || lu2_pivot_solve_rel(a, b, x, 1, 0)
}

/// `x` solves `a x = b` by forward substitution with the lower triangle of
/// the square `a` of size 1 or 2: `x(0, j) = b(0, j) / a11`, then
/// `x(1, j) = (b(1, j) − a21 · x(0, j)) / a22`.
pub open spec fn small_lower_solve_rel<T>(a: RawMatrix<T>, b: RawMatrix<T>, x: RawMatrix<T>) -> bool {
    &&& (a.nrows == 1 || a.nrows == 2) ==> forall|j: int| 0 <= j < b.ncols ==> div_rel(b.at(0, j), a.at(0, 0), #[trigger] x.at(0, j))
    &&& a.nrows == 2 ==> forall|j: int| 0 <= j < b.ncols ==> exists|one: T, y: T|
        axpy_step_rel(x.at(0, j), a.at(1, 0), one, b.at(1, j), y) && div_rel(y, a.at(1, 1), #[trigger] x.at(1, j))
}

/// `x` solves `a x = b` by back substitution with the upper triangle of the
/// square `a` of size 1 or 2: `x(last, j) = b(last, j) / a(last, last)`, then
/// for size 2 `x(0, j) = (b(0, j) − a12 · x(1, j)) / a11`.
pub open spec fn small_upper_solve_rel<T>(a: RawMatrix<T>, b: RawMatrix<T>, x: RawMatrix<T>) -> bool {
    &&& a.nrows == 1 ==> forall|j: int| 0 <= j < b.ncols ==> div_rel(b.at(0, j), a.at(0, 0), #[trigger] x.at(0, j))
    &&& a.nrows == 2 ==> forall|j: int| 0 <= j < b.ncols ==> div_rel(b.at(1, j), a.at(1, 1), #[trigger] x.at(1, j))
    &&& a.nrows == 2 ==> forall|j: int| 0 <= j < b.ncols ==> exists|one: T, y: T|
        axpy_step_rel(x.at(1, j), a.at(0, 1), one, b.at(0, j), y) && div_rel(y, a.at(0, 0), #[trigger] x.at(0, j))
}

} // verus!
