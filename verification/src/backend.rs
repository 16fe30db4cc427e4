//! The numeric backend: nalgebra.
//!
//! Each function here hands one or two [`RawMatrix`] values to a single
//! nalgebra routine and converts the result back. Their contracts state what
//! nalgebra's documentation and source give for every scalar type: the shape
//! of the result, the inputs on which the routine would panic (left out by
//! `requires`), and which results are optional. Where a routine sets each
//! entry by one scalar operation (sums, differences, scaling), the entry is
//! tied to its operands by vstd's relation for that operation; the entries
//! of the other algorithms are not described.

use vstd::prelude::*;
use crate::matrix::identity_pattern;
use crate::raw::RawMatrix;
use crate::relations::{is_product, product_in_order, small_det_rel, small_inverse_rel, small_lower_solve_rel,
    small_solve_rel, small_upper_solve_rel,
};

verus! {

/// A complex number with real part `re` and imaginary part `im`, the library's
/// copy of `nalgebra::Complex` (num-complex's type) for the values nalgebra's
/// complex eigenvalue routine returns.
#[derive(Clone, Copy, Debug)]
pub struct Complex<T> {
    pub re: T,
    pub im: T,
}

/// `r` is a well-formed `nrows × ncols` matrix.
pub open spec fn shaped<T>(r: RawMatrix<T>, nrows: int, ncols: int) -> bool {
    &&& r.wf()
    &&& r.nrows == nrows
    &&& r.ncols == ncols
}

/// The zero of the scalar field (`num_traits::Zero::zero`). Nothing is claimed
/// of the value.
#[verifier::external_body]
pub(crate) fn na_zero<T: nalgebra::ComplexField + Copy>() -> (r: T) {
    T::zero()
}

/// The unit of the scalar field (`num_traits::One::one`). Nothing is claimed
/// of the value.
#[verifier::external_body]
pub(crate) fn na_one<T: nalgebra::ComplexField + Copy>() -> (r: T) {
    T::one()
}

/// nalgebra's matrix product `a · b` (`Mul` for `DMatrix`, which panics unless
/// `a.ncols == b.nrows`). Claims the shape `a.nrows × b.ncols`. nalgebra
/// forms the product by `gemm(one, a, b, zero)`; unless all three dimensions
/// exceed 5 (where `f32` and `f64` go to matrixmultiply, whose kernel the
/// processor decides), `gemm` runs one `gemv` per column of `b`, which sets
/// entry `(i, j)` to `(one · a(i, 0)) · b(0, j)` and then adds
/// `(one · a(i, k)) · b(k, j) + one · previous` for each later `k`. Claims
/// exactly that, entry by entry, in that case.
#[verifier::external_body]
pub(crate) fn na_mul<T: nalgebra::ComplexField + Copy>(a: &RawMatrix<T>, b: &RawMatrix<T>) -> (r: RawMatrix<T>)
    requires
        a.wf(),
        b.wf(),
        a.ncols == b.nrows,
    ensures
        shaped(r, a.nrows as int, b.ncols as int),
        product_in_order(a.nrows as int, a.ncols as int, b.ncols as int) ==> is_product(*a, *b, r),
{
    let x = nalgebra::DMatrix::from_column_slice(a.nrows, a.ncols, &a.data);
    let y = nalgebra::DMatrix::from_column_slice(b.nrows, b.ncols, &b.data);
    let p = x * y;
    RawMatrix { nrows: p.nrows(), ncols: p.ncols(), data: p.as_slice().to_vec() }
}

/// nalgebra's entry-wise sum `&a + &b` (panics on a shape mismatch), which
/// sets each entry to `T::add` of the two entries. Claims that the shape is
/// kept and that each entry stands to the two entries as vstd's
/// `add_ensures` (its relation for the scalar `+`) says.
#[verifier::external_body]
pub(crate) fn na_add<T: nalgebra::ComplexField + Copy>(a: &RawMatrix<T>, b: &RawMatrix<T>) -> (r: RawMatrix<T>)
    requires
        a.wf(),
        b.wf(),
        a.nrows == b.nrows,
        a.ncols == b.ncols,
    ensures
        shaped(r, a.nrows as int, a.ncols as int),
        forall|i: int, j: int| 0 <= i < a.nrows && 0 <= j < a.ncols ==>
            vstd::std_specs::ops::add_ensures::<T>(a.at(i, j), b.at(i, j), #[trigger] r.at(i, j)),
{
    let x = nalgebra::DMatrix::from_column_slice(a.nrows, a.ncols, &a.data);
    let y = nalgebra::DMatrix::from_column_slice(b.nrows, b.ncols, &b.data);
    let p = &x + &y;
    RawMatrix { nrows: p.nrows(), ncols: p.ncols(), data: p.as_slice().to_vec() }
}

/// nalgebra's entry-wise difference `&a - &b` (panics on a shape mismatch),
/// which sets each entry to `T::sub` of the two entries. Claims that the
/// shape is kept and that each entry stands to the two entries as vstd's
/// `sub_ensures` (its relation for the scalar `-`) says.
#[verifier::external_body]
pub(crate) fn na_sub<T: nalgebra::ComplexField + Copy>(a: &RawMatrix<T>, b: &RawMatrix<T>) -> (r: RawMatrix<T>)
    requires
        a.wf(),
        b.wf(),
        a.nrows == b.nrows,
        a.ncols == b.ncols,
    ensures
        shaped(r, a.nrows as int, a.ncols as int),
        forall|i: int, j: int| 0 <= i < a.nrows && 0 <= j < a.ncols ==>
            vstd::std_specs::ops::sub_ensures::<T>(a.at(i, j), b.at(i, j), #[trigger] r.at(i, j)),
{
    let x = nalgebra::DMatrix::from_column_slice(a.nrows, a.ncols, &a.data);
    let y = nalgebra::DMatrix::from_column_slice(b.nrows, b.ncols, &b.data);
    let p = &x - &y;
    RawMatrix { nrows: p.nrows(), ncols: p.ncols(), data: p.as_slice().to_vec() }
}

/// nalgebra's negation `-a`, which sets each entry to `T::neg` of the entry.
/// Claims that the shape is kept and that each entry stands to the old one
/// as vstd's `neg_ensures` (its relation for the scalar `-`) says.
#[verifier::external_body]
pub(crate) fn na_neg<T: nalgebra::ComplexField + Copy>(a: &RawMatrix<T>) -> (r: RawMatrix<T>)
    requires
        a.wf(),
    ensures
        shaped(r, a.nrows as int, a.ncols as int),
        forall|i: int, j: int| 0 <= i < a.nrows && 0 <= j < a.ncols ==>
            vstd::std_specs::ops::neg_ensures::<T>(a.at(i, j), #[trigger] r.at(i, j)),
{
    let x = nalgebra::DMatrix::from_column_slice(a.nrows, a.ncols, &a.data);
    let p = -x;
    RawMatrix { nrows: p.nrows(), ncols: p.ncols(), data: p.as_slice().to_vec() }
}

/// nalgebra's `Matrix::scale`: every entry multiplied by the real `factor`
/// (simba's `scale` of a real scalar is `self * factor`). Claims that the
/// shape is kept and that each entry stands to the old entry and `factor`
/// as vstd's `mul_ensures` (its relation for the scalar `*`) says.
#[verifier::external_body]
pub(crate) fn na_scale<T: nalgebra::RealField + Copy>(a: &RawMatrix<T>, factor: T) -> (r: RawMatrix<T>)
    requires
        a.wf(),
    ensures
        shaped(r, a.nrows as int, a.ncols as int),
        forall|i: int, j: int| 0 <= i < a.nrows && 0 <= j < a.ncols ==>
            vstd::std_specs::ops::mul_ensures::<T>(a.at(i, j), factor, #[trigger] r.at(i, j)),
{
    let x = nalgebra::DMatrix::from_column_slice(a.nrows, a.ncols, &a.data);
    let p = x.scale(factor);
    RawMatrix { nrows: p.nrows(), ncols: p.ncols(), data: p.as_slice().to_vec() }
}

/// nalgebra's `Matrix::unscale`: every entry divided by the real `factor`
/// (simba's `unscale` of a real scalar is `self / factor`). Claims that the
/// shape is kept and that each entry stands to the old entry and `factor`
/// as vstd's `div_ensures` (its relation for the scalar `/`) says.
#[verifier::external_body]
pub(crate) fn na_unscale<T: nalgebra::RealField + Copy>(a: &RawMatrix<T>, factor: T) -> (r: RawMatrix<T>)
    requires
        a.wf(),
    ensures
        shaped(r, a.nrows as int, a.ncols as int),
        forall|i: int, j: int| 0 <= i < a.nrows && 0 <= j < a.ncols ==>
            vstd::std_specs::ops::div_ensures::<T>(a.at(i, j), factor, #[trigger] r.at(i, j)),
{
    let x = nalgebra::DMatrix::from_column_slice(a.nrows, a.ncols, &a.data);
    let p = x.unscale(factor);
    RawMatrix { nrows: p.nrows(), ncols: p.ncols(), data: p.as_slice().to_vec() }
}

/// nalgebra's `Matrix::adjoint` (conjugate transpose). Claims the transposed
/// shape `a.ncols × a.nrows`.
#[verifier::external_body]
pub(crate) fn na_adjoint<T: nalgebra::ComplexField + Copy>(a: &RawMatrix<T>) -> (r: RawMatrix<T>)
    requires
        a.wf(),
    ensures
        shaped(r, a.ncols as int, a.nrows as int),
{
    let x = nalgebra::DMatrix::from_column_slice(a.nrows, a.ncols, &a.data);
    let p = x.adjoint();
    RawMatrix { nrows: p.nrows(), ncols: p.ncols(), data: p.as_slice().to_vec() }
}

/// nalgebra's `Matrix::component_mul` (Hadamard product; panics on a shape
/// mismatch), which multiplies each entry in place by the other matrix's
/// entry (`*=`, the compound form of the scalar `*`). Claims that the shape
/// is kept and that each entry stands to the two entries as vstd's
/// `mul_ensures` says.
#[verifier::external_body]
pub(crate) fn na_component_mul<T: nalgebra::ComplexField + Copy>(a: &RawMatrix<T>, b: &RawMatrix<T>) -> (r: RawMatrix<T>)
    requires
        a.wf(),
        b.wf(),
        a.nrows == b.nrows,
        a.ncols == b.ncols,
    ensures
        shaped(r, a.nrows as int, a.ncols as int),
        forall|i: int, j: int| 0 <= i < a.nrows && 0 <= j < a.ncols ==>
            vstd::std_specs::ops::mul_ensures::<T>(a.at(i, j), b.at(i, j), #[trigger] r.at(i, j)),
{
    let x = nalgebra::DMatrix::from_column_slice(a.nrows, a.ncols, &a.data);
    let y = nalgebra::DMatrix::from_column_slice(b.nrows, b.ncols, &b.data);
    let p = x.component_mul(&y);
    RawMatrix { nrows: p.nrows(), ncols: p.ncols(), data: p.as_slice().to_vec() }
}

/// nalgebra's `Matrix::component_div` (entry-wise quotient; panics on a shape
/// mismatch), which divides each entry in place by the other matrix's entry
/// (`/=`, the compound form of the scalar `/`). Claims that the shape is kept
/// and that each entry stands to the two entries as vstd's `div_ensures`
/// says.
#[verifier::external_body]
pub(crate) fn na_component_div<T: nalgebra::ComplexField + Copy>(a: &RawMatrix<T>, b: &RawMatrix<T>) -> (r: RawMatrix<T>)
    requires
        a.wf(),
        b.wf(),
        a.nrows == b.nrows,
        a.ncols == b.ncols,
    ensures
        shaped(r, a.nrows as int, a.ncols as int),
        forall|i: int, j: int| 0 <= i < a.nrows && 0 <= j < a.ncols ==>
            vstd::std_specs::ops::div_ensures::<T>(a.at(i, j), b.at(i, j), #[trigger] r.at(i, j)),
{
    let x = nalgebra::DMatrix::from_column_slice(a.nrows, a.ncols, &a.data);
    let y = nalgebra::DMatrix::from_column_slice(b.nrows, b.ncols, &b.data);
    let p = x.component_div(&y);
    RawMatrix { nrows: p.nrows(), ncols: p.ncols(), data: p.as_slice().to_vec() }
}

/// nalgebra's `Matrix::kronecker`. Claims the shape
/// `(a.nrows · b.nrows) × (a.ncols · b.ncols)`.
#[verifier::external_body]
pub(crate) fn na_kronecker<T: nalgebra::ComplexField + Copy>(a: &RawMatrix<T>, b: &RawMatrix<T>) -> (r: RawMatrix<T>)
    requires
        a.wf(),
        b.wf(),
        a.nrows * b.nrows * (a.ncols * b.ncols) <= usize::MAX,
    ensures
        shaped(r, a.nrows * b.nrows, a.ncols * b.ncols),
{
    let x = nalgebra::DMatrix::from_column_slice(a.nrows, a.ncols, &a.data);
    let y = nalgebra::DMatrix::from_column_slice(b.nrows, b.ncols, &b.data);
    let p = x.kronecker(&y);
    RawMatrix { nrows: p.nrows(), ncols: p.ncols(), data: p.as_slice().to_vec() }
}

/// nalgebra's `Matrix::tr_mul`, `aᵀ · b` (panics unless the row counts
/// agree). Claims the shape `a.ncols × b.ncols`.
#[verifier::external_body]
pub(crate) fn na_tr_mul<T: nalgebra::ComplexField + Copy>(a: &RawMatrix<T>, b: &RawMatrix<T>) -> (r: RawMatrix<T>)
    requires
        a.wf(),
        b.wf(),
        a.nrows == b.nrows,
    ensures
        shaped(r, a.ncols as int, b.ncols as int),
{
    let x = nalgebra::DMatrix::from_column_slice(a.nrows, a.ncols, &a.data);
    let y = nalgebra::DMatrix::from_column_slice(b.nrows, b.ncols, &b.data);
    let p = x.tr_mul(&y);
    RawMatrix { nrows: p.nrows(), ncols: p.ncols(), data: p.as_slice().to_vec() }
}

/// nalgebra's `Matrix::ad_mul`, `aᴴ · b` (panics unless the row counts
/// agree). Claims the shape `a.ncols × b.ncols`.
#[verifier::external_body]
pub(crate) fn na_ad_mul<T: nalgebra::ComplexField + Copy>(a: &RawMatrix<T>, b: &RawMatrix<T>) -> (r: RawMatrix<T>)
    requires
        a.wf(),
        b.wf(),
        a.nrows == b.nrows,
    ensures
        shaped(r, a.ncols as int, b.ncols as int),
{
    let x = nalgebra::DMatrix::from_column_slice(a.nrows, a.ncols, &a.data);
    let y = nalgebra::DMatrix::from_column_slice(b.nrows, b.ncols, &b.data);
    let p = x.ad_mul(&y);
    RawMatrix { nrows: p.nrows(), ncols: p.ncols(), data: p.as_slice().to_vec() }
}

/// nalgebra's `Matrix::trace` (panics on a non-square matrix). Nothing is
/// claimed of the value.
#[verifier::external_body]
pub(crate) fn na_trace<T: nalgebra::ComplexField + Copy>(a: &RawMatrix<T>) -> (r: T)
    requires
        a.wf(),
        a.nrows == a.ncols,
{
    nalgebra::DMatrix::from_column_slice(a.nrows, a.ncols, &a.data).trace()
}

/// nalgebra's `Matrix::pow` (integer power of a square matrix). Claims that
/// the shape is kept, that the zeroth power is an identity pattern (nalgebra
/// fills it with `one` on the diagonal and `zero` elsewhere) and that the
/// first power is the matrix itself (nalgebra leaves its copy untouched).
#[verifier::external_body]
pub(crate) fn na_pow<T: nalgebra::ComplexField + Copy>(a: &RawMatrix<T>, k: u32) -> (r: RawMatrix<T>)
    requires
        a.wf(),
        a.nrows == a.ncols,
    ensures
        shaped(r, a.nrows as int, a.ncols as int),
        k == 0 ==> exists|z: T, o: T| identity_pattern(r, z, o),
        k == 1 ==> r.data@ == a.data@,
{
    let x = nalgebra::DMatrix::from_column_slice(a.nrows, a.ncols, &a.data);
    let p = x.pow(k);
    RawMatrix { nrows: p.nrows(), ncols: p.ncols(), data: p.as_slice().to_vec() }
}

/// nalgebra's `Matrix::try_inverse` (panics on a non-square matrix; `None`
/// when the matrix is singular). Claims the shape of an inverse that is
/// returned, and, for sizes 1 to 3, the explicit formula nalgebra writes for
/// it (`one / a11`, then the adjugate over the determinant); whether one is
/// returned depends on the entries and is not stated.
#[verifier::external_body]
pub(crate) fn na_try_inverse<T: nalgebra::ComplexField + Copy>(a: &RawMatrix<T>) -> (r: Option<RawMatrix<T>>)
    requires
        a.wf(),
        a.nrows == a.ncols,
    ensures
        r matches Some(m) ==> shaped(m, a.nrows as int, a.ncols as int) && small_inverse_rel(*a, m),
{
    let x = nalgebra::DMatrix::from_column_slice(a.nrows, a.ncols, &a.data);
    match x.try_inverse() {
        Some(p) => Some(RawMatrix { nrows: p.nrows(), ncols: p.ncols(), data: p.as_slice().to_vec() }),
        None => None,
    }
}

/// nalgebra's `Matrix::solve_lower_triangular`, solving `a · x = b` with the
/// lower triangle of the square `a` (`None` on a zero diagonal entry). Claims
/// the shape of a returned solution, that of `b`, and for sizes 1 and 2 the
/// forward substitution nalgebra's code performs (a division by the diagonal
/// entry, then an `axpy` update of the rows below).
#[verifier::external_body]
pub(crate) fn na_solve_lower<T: nalgebra::ComplexField + Copy>(a: &RawMatrix<T>, b: &RawMatrix<T>) -> (r: Option<RawMatrix<T>>)
    requires
        a.wf(),
        b.wf(),
        a.nrows == a.ncols,
        b.nrows == a.nrows,
    ensures
        r matches Some(m) ==> shaped(m, b.nrows as int, b.ncols as int) && small_lower_solve_rel(*a, *b, m),
{
    let x = nalgebra::DMatrix::from_column_slice(a.nrows, a.ncols, &a.data);
    let y = nalgebra::DMatrix::from_column_slice(b.nrows, b.ncols, &b.data);
    match x.solve_lower_triangular(&y) {
        Some(p) => Some(RawMatrix { nrows: p.nrows(), ncols: p.ncols(), data: p.as_slice().to_vec() }),
        None => None,
    }
}

/// nalgebra's `Matrix::solve_upper_triangular`, solving `a · x = b` with the
/// upper triangle of the square `a` (`None` on a zero diagonal entry). Claims
/// the shape of a returned solution, that of `b`, and for sizes 1 and 2 the
/// back substitution nalgebra's code performs (a division by the diagonal
/// entry, then an `axpy` update of the rows above).
#[verifier::external_body]
pub(crate) fn na_solve_upper<T: nalgebra::ComplexField + Copy>(a: &RawMatrix<T>, b: &RawMatrix<T>) -> (r: Option<RawMatrix<T>>)
    requires
        a.wf(),
        b.wf(),
        a.nrows == a.ncols,
        b.nrows == a.nrows,
    ensures
        r matches Some(m) ==> shaped(m, b.nrows as int, b.ncols as int) && small_upper_solve_rel(*a, *b, m),
{
    let x = nalgebra::DMatrix::from_column_slice(a.nrows, a.ncols, &a.data);
    let y = nalgebra::DMatrix::from_column_slice(b.nrows, b.ncols, &b.data);
    match x.solve_upper_triangular(&y) {
        Some(p) => Some(RawMatrix { nrows: p.nrows(), ncols: p.ncols(), data: p.as_slice().to_vec() }),
        None => None,
    }
}

/// nalgebra's partial-pivoting `LU::new(a).solve(b)` for a square `a`
/// (`None` when `a` is singular). Claims the shape of a returned solution,
/// that of `b`, and for sizes 1 and 2 the arithmetic nalgebra's code performs
/// (`LU::new`'s elimination step, whose scaling of the multipliers is `*=`,
/// then `solve_lower_triangular_with_diag_mut` with `one` and
/// `solve_upper_triangular_mut`, whose updates are `axpy` steps): a returned
/// solution has gone through elimination with a non-zero pivot, since a zero
/// one leaves a zero on `U`'s diagonal and the back substitution refuses it.
#[verifier::external_body]
pub(crate) fn na_lu_solve<T: nalgebra::ComplexField + Copy>(a: &RawMatrix<T>, b: &RawMatrix<T>) -> (r: Option<RawMatrix<T>>)
    requires
        a.wf(),
        b.wf(),
        a.nrows == a.ncols,
        b.nrows == a.nrows,
    ensures
        r matches Some(m) ==> shaped(m, b.nrows as int, b.ncols as int) && small_solve_rel(*a, *b, m),
{
    let x = nalgebra::DMatrix::from_column_slice(a.nrows, a.ncols, &a.data);
    let y = nalgebra::DMatrix::from_column_slice(b.nrows, b.ncols, &b.data);
    match nalgebra::LU::new(x).solve(&y) {
        Some(p) => Some(RawMatrix { nrows: p.nrows(), ncols: p.ncols(), data: p.as_slice().to_vec() }),
        None => None,
    }
}

/// nalgebra's `LU::new(a).try_inverse()` for a square `a` (`None` when `a` is
/// singular). Claims the shape of a returned inverse.
#[verifier::external_body]
pub(crate) fn na_lu_try_inverse<T: nalgebra::ComplexField + Copy>(a: &RawMatrix<T>) -> (r: Option<RawMatrix<T>>)
    requires
        a.wf(),
        a.nrows == a.ncols,
    ensures
        r matches Some(m) ==> shaped(m, a.nrows as int, a.ncols as int),
{
    let x = nalgebra::DMatrix::from_column_slice(a.nrows, a.ncols, &a.data);
    match nalgebra::LU::new(x).try_inverse() {
        Some(p) => Some(RawMatrix { nrows: p.nrows(), ncols: p.ncols(), data: p.as_slice().to_vec() }),
        None => None,
    }
}

/// nalgebra's `LU::new(a).determinant()` for a square `a`. Nothing is claimed
/// of the value.
#[verifier::external_body]
pub(crate) fn na_lu_determinant<T: nalgebra::ComplexField + Copy>(a: &RawMatrix<T>) -> (r: T)
    requires
        a.wf(),
        a.nrows == a.ncols,
{
    nalgebra::LU::new(nalgebra::DMatrix::from_column_slice(a.nrows, a.ncols, &a.data)).determinant()
}

/// The factors of nalgebra's partial-pivoting `LU::new(a)` for a square `a`:
/// the permutation as a matrix (the identity with `lu.p()` applied to its
/// rows), `lu.l()` and `lu.u()`. Claims that all three are `n × n`.
#[verifier::external_body]
pub(crate) fn na_lu_factors<T: nalgebra::ComplexField + Copy>(a: &RawMatrix<T>) -> (r: (RawMatrix<T>, RawMatrix<T>, RawMatrix<T>))
    requires
        a.wf(),
        a.nrows == a.ncols,
    ensures
        shaped(r.0, a.nrows as int, a.nrows as int),
        shaped(r.1, a.nrows as int, a.nrows as int),
        shaped(r.2, a.nrows as int, a.nrows as int),
{
    let lu = nalgebra::LU::new(nalgebra::DMatrix::from_column_slice(a.nrows, a.ncols, &a.data));
    let mut p = nalgebra::DMatrix::<T>::identity(a.nrows, a.nrows);
    lu.p().permute_rows(&mut p);
    let (l, u) = (lu.l(), lu.u());
    let n = a.nrows;
    (RawMatrix { nrows: n, ncols: n, data: p.as_slice().to_vec() },
     RawMatrix { nrows: n, ncols: n, data: l.as_slice().to_vec() },
     RawMatrix { nrows: n, ncols: n, data: u.as_slice().to_vec() })
}

/// nalgebra's full-pivoting `FullPivLU::new(a).solve(b)` for a non-empty
/// square `a` (its invertibility test reads the last pivot, which panics on an
/// empty matrix; `None` when `a` is singular). Claims the shape of a returned solution.
#[verifier::external_body]
pub(crate) fn na_full_piv_solve<T: nalgebra::ComplexField + Copy>(a: &RawMatrix<T>, b: &RawMatrix<T>) -> (r: Option<RawMatrix<T>>)
    requires
        a.wf(),
        b.wf(),
        a.nrows > 0,
        a.nrows == a.ncols,
        b.nrows == a.nrows,
    ensures
        r matches Some(m) ==> shaped(m, b.nrows as int, b.ncols as int),
{
    let x = nalgebra::DMatrix::from_column_slice(a.nrows, a.ncols, &a.data);
    let y = nalgebra::DMatrix::from_column_slice(b.nrows, b.ncols, &b.data);
    match nalgebra::FullPivLU::new(x).solve(&y) {
        Some(p) => Some(RawMatrix { nrows: p.nrows(), ncols: p.ncols(), data: p.as_slice().to_vec() }),
        None => None,
    }
}

/// nalgebra's `FullPivLU::new(a).try_inverse()` for a non-empty square `a`
/// (an empty one panics on the last-pivot test; `None` when `a` is
/// singular). Claims the shape of a returned inverse.
#[verifier::external_body]
pub(crate) fn na_full_piv_try_inverse<T: nalgebra::ComplexField + Copy>(a: &RawMatrix<T>) -> (r: Option<RawMatrix<T>>)
    requires
        a.wf(),
        a.nrows > 0,
        a.nrows == a.ncols,
    ensures
        r matches Some(m) ==> shaped(m, a.nrows as int, a.ncols as int),
{
    let x = nalgebra::DMatrix::from_column_slice(a.nrows, a.ncols, &a.data);
    match nalgebra::FullPivLU::new(x).try_inverse() {
        Some(p) => Some(RawMatrix { nrows: p.nrows(), ncols: p.ncols(), data: p.as_slice().to_vec() }),
        None => None,
    }
}

/// nalgebra's `FullPivLU::new(a).determinant()` for a non-empty square `a`
/// (it reads the last pivot, which panics on an empty matrix). Nothing is
/// claimed of the value.
#[verifier::external_body]
pub(crate) fn na_full_piv_determinant<T: nalgebra::ComplexField + Copy>(a: &RawMatrix<T>) -> (r: T)
    requires
        a.wf(),
        a.nrows > 0,
        a.nrows == a.ncols,
{
    nalgebra::FullPivLU::new(nalgebra::DMatrix::from_column_slice(a.nrows, a.ncols, &a.data)).determinant()
}

/// nalgebra's `Matrix::determinant` (panics on a non-square matrix). Claims,
/// for sizes 1 to 3, the explicit formula nalgebra writes: the entry,
/// `m11 m22 − m21 m12`, or the cofactor expansion along the first row
/// (larger sizes go through an LU decomposition, whose value is not stated).
#[verifier::external_body]
pub(crate) fn na_determinant<T: nalgebra::ComplexField + Copy>(a: &RawMatrix<T>) -> (r: T)
    requires
        a.wf(),
        a.nrows == a.ncols,
    ensures
        small_det_rel(*a, r),
{
    nalgebra::DMatrix::from_column_slice(a.nrows, a.ncols, &a.data).determinant()
}

/// The real eigenvalues of a non-empty real square matrix (nalgebra's
/// eigenvalue extraction indexes `dim - 1`) through nalgebra's bounded Schur
/// iteration, `Schur::try_new(a, default_epsilon, max_niter)` then
/// `Schur::eigenvalues` (`None` when the iteration does not converge within
/// `max_niter` sweeps or an eigenvalue is complex). Claims that a returned
/// spectrum is an `n × 1` column.
#[verifier::external_body]
pub(crate) fn na_eigenvalues<T: nalgebra::RealField + Copy>(a: &RawMatrix<T>, max_niter: usize) -> (r: Option<RawMatrix<T>>)
    requires
        a.wf(),
        a.nrows > 0,
        a.nrows == a.ncols,
        max_niter > 0,
    ensures
        r matches Some(m) ==> shaped(m, a.nrows as int, 1),
{
    let x = nalgebra::DMatrix::from_column_slice(a.nrows, a.ncols, &a.data);
    match nalgebra::Schur::try_new(x, T::default_epsilon(), max_niter) {
        Some(s) => match s.eigenvalues() {
            Some(p) => Some(RawMatrix { nrows: p.nrows(), ncols: p.ncols(), data: p.as_slice().to_vec() }),
            None => None,
        },
        None => None,
    }
}

/// The complex eigenvalues of a non-empty real square matrix (nalgebra's
/// extraction indexes `dim - 1`) through nalgebra's bounded Schur iteration, `Schur::try_new(a, default_epsilon, max_niter)`
/// then `Schur::complex_eigenvalues`, each `nalgebra::Complex` moved into a
/// [`Complex`] (`None` when the iteration does not converge within
/// `max_niter` sweeps). Claims an `n × 1` column.
#[verifier::external_body]
pub(crate) fn na_complex_eigenvalues<T: nalgebra::RealField + Copy>(a: &RawMatrix<T>, max_niter: usize) -> (r: Option<RawMatrix<Complex<T>>>)
    requires
        a.wf(),
        a.nrows > 0,
        a.nrows == a.ncols,
        max_niter > 0,
    ensures
        r matches Some(m) ==> shaped(m, a.nrows as int, 1),
{
    let x = nalgebra::DMatrix::from_column_slice(a.nrows, a.ncols, &a.data);
    match nalgebra::Schur::try_new(x, T::default_epsilon(), max_niter) {
        Some(s) => {
            let p = s.complex_eigenvalues();
            let data = p.iter().map(|c| Complex { re: c.re, im: c.im }).collect();
            Some(RawMatrix { nrows: p.nrows(), ncols: p.ncols(), data })
        },
        None => None,
    }
}

/// nalgebra's `Matrix::inf`, the entry-wise minimum of two matrices of one
/// shape. Claims that the shape is kept.
#[verifier::external_body]
pub(crate) fn na_inf<T: nalgebra::RealField + Copy>(a: &RawMatrix<T>, b: &RawMatrix<T>) -> (r: RawMatrix<T>)
    requires
        a.wf(),
        b.wf(),
        a.nrows == b.nrows,
        a.ncols == b.ncols,
    ensures
        shaped(r, a.nrows as int, a.ncols as int),
{
    let x = nalgebra::DMatrix::from_column_slice(a.nrows, a.ncols, &a.data);
    let y = nalgebra::DMatrix::from_column_slice(b.nrows, b.ncols, &b.data);
    let p = x.inf(&y);
    RawMatrix { nrows: p.nrows(), ncols: p.ncols(), data: p.as_slice().to_vec() }
}

/// nalgebra's `Matrix::sup`, the entry-wise maximum of two matrices of one
/// shape. Claims that the shape is kept.
#[verifier::external_body]
pub(crate) fn na_sup<T: nalgebra::RealField + Copy>(a: &RawMatrix<T>, b: &RawMatrix<T>) -> (r: RawMatrix<T>)
    requires
        a.wf(),
        b.wf(),
        a.nrows == b.nrows,
        a.ncols == b.ncols,
    ensures
        shaped(r, a.nrows as int, a.ncols as int),
{
    let x = nalgebra::DMatrix::from_column_slice(a.nrows, a.ncols, &a.data);
    let y = nalgebra::DMatrix::from_column_slice(b.nrows, b.ncols, &b.data);
    let p = x.sup(&y);
    RawMatrix { nrows: p.nrows(), ncols: p.ncols(), data: p.as_slice().to_vec() }
}

/// nalgebra's `Matrix::row_sum`: the `1 × ncols` row of column sums.
#[verifier::external_body]
pub(crate) fn na_row_sum<T: nalgebra::ComplexField + Copy>(a: &RawMatrix<T>) -> (r: RawMatrix<T>)
    requires
        a.wf(),
    ensures
        shaped(r, 1, a.ncols as int),
{
    let p = nalgebra::DMatrix::from_column_slice(a.nrows, a.ncols, &a.data).row_sum();
    RawMatrix { nrows: p.nrows(), ncols: p.ncols(), data: p.as_slice().to_vec() }
}

/// nalgebra's `Matrix::column_sum`: the `nrows × 1` column of row sums.
#[verifier::external_body]
pub(crate) fn na_column_sum<T: nalgebra::ComplexField + Copy>(a: &RawMatrix<T>) -> (r: RawMatrix<T>)
    requires
        a.wf(),
    ensures
        shaped(r, a.nrows as int, 1),
{
    let p = nalgebra::DMatrix::from_column_slice(a.nrows, a.ncols, &a.data).column_sum();
    RawMatrix { nrows: p.nrows(), ncols: p.ncols(), data: p.as_slice().to_vec() }
}

/// nalgebra's `Matrix::row_mean`: the `1 × ncols` row of column means.
#[verifier::external_body]
pub(crate) fn na_row_mean<T: nalgebra::ComplexField + Copy>(a: &RawMatrix<T>) -> (r: RawMatrix<T>)
    requires
        a.wf(),
    ensures
        shaped(r, 1, a.ncols as int),
{
    let p = nalgebra::DMatrix::from_column_slice(a.nrows, a.ncols, &a.data).row_mean();
    RawMatrix { nrows: p.nrows(), ncols: p.ncols(), data: p.as_slice().to_vec() }
}

/// nalgebra's `Matrix::column_mean`: the `nrows × 1` column of row means.
#[verifier::external_body]
pub(crate) fn na_column_mean<T: nalgebra::ComplexField + Copy>(a: &RawMatrix<T>) -> (r: RawMatrix<T>)
    requires
        a.wf(),
    ensures
        shaped(r, a.nrows as int, 1),
{
    let p = nalgebra::DMatrix::from_column_slice(a.nrows, a.ncols, &a.data).column_mean();
    RawMatrix { nrows: p.nrows(), ncols: p.ncols(), data: p.as_slice().to_vec() }
}

/// nalgebra's `Vector::lerp`, `a · (1 - t) + b · t` for two columns of one
/// length. Claims that the shape is kept.
#[verifier::external_body]
pub(crate) fn na_lerp<T: nalgebra::ComplexField + Copy>(a: &RawMatrix<T>, b: &RawMatrix<T>, t: T) -> (r: RawMatrix<T>)
    requires
        a.wf(),
        b.wf(),
        a.ncols == 1,
        b.ncols == 1,
        a.nrows == b.nrows,
    ensures
        shaped(r, a.nrows as int, 1),
{
    let x = nalgebra::DVector::from_column_slice(&a.data);
    let y = nalgebra::DVector::from_column_slice(&b.data);
    let p = x.lerp(&y, t);
    RawMatrix { nrows: p.nrows(), ncols: p.ncols(), data: p.as_slice().to_vec() }
}

/// nalgebra's `Matrix * T`, which sets each entry to `T::mul` of the entry
/// and `t`. Claims that the shape is kept and that each entry stands to the
/// old one and `t` as vstd's `mul_ensures` says.
#[verifier::external_body]
pub(crate) fn na_mul_scalar<T: nalgebra::ComplexField + Copy>(a: &RawMatrix<T>, t: T) -> (r: RawMatrix<T>)
    requires
        a.wf(),
    ensures
        shaped(r, a.nrows as int, a.ncols as int),
        forall|i: int, j: int| 0 <= i < a.nrows && 0 <= j < a.ncols ==>
            vstd::std_specs::ops::mul_ensures::<T>(a.at(i, j), t, #[trigger] r.at(i, j)),
{
    let x = nalgebra::DMatrix::from_column_slice(a.nrows, a.ncols, &a.data);
    let p = x * t;
    RawMatrix { nrows: p.nrows(), ncols: p.ncols(), data: p.as_slice().to_vec() }
}

/// nalgebra's `Matrix / T`, which sets each entry to `T::div` of the entry
/// and `t`. Claims that the shape is kept and that each entry stands to the
/// old one and `t` as vstd's `div_ensures` says.
#[verifier::external_body]
pub(crate) fn na_div_scalar<T: nalgebra::ComplexField + Copy>(a: &RawMatrix<T>, t: T) -> (r: RawMatrix<T>)
    requires
        a.wf(),
    ensures
        shaped(r, a.nrows as int, a.ncols as int),
        forall|i: int, j: int| 0 <= i < a.nrows && 0 <= j < a.ncols ==>
            vstd::std_specs::ops::div_ensures::<T>(a.at(i, j), t, #[trigger] r.at(i, j)),
{
    let x = nalgebra::DMatrix::from_column_slice(a.nrows, a.ncols, &a.data);
    let p = x / t;
    RawMatrix { nrows: p.nrows(), ncols: p.ncols(), data: p.as_slice().to_vec() }
}

/// The factors of nalgebra's full-pivoting `FullPivLU::new(a)` for a square
/// `a`: the row permutation as a matrix (the identity with `lu.p()` applied to
/// its rows), the column permutation as a matrix (the identity with `lu.q()`
/// applied to its columns), `lu.l()` and `lu.u()`. Claims that all four are
/// `n × n`.
#[verifier::external_body]
pub(crate) fn na_full_piv_factors<T: nalgebra::ComplexField + Copy>(a: &RawMatrix<T>) -> (r: (RawMatrix<T>, RawMatrix<T>, RawMatrix<T>, RawMatrix<T>))
    requires
        a.wf(),
        a.nrows == a.ncols,
    ensures
        shaped(r.0, a.nrows as int, a.nrows as int),
        shaped(r.1, a.nrows as int, a.nrows as int),
        shaped(r.2, a.nrows as int, a.nrows as int),
        shaped(r.3, a.nrows as int, a.nrows as int),
{
    let lu = nalgebra::FullPivLU::new(nalgebra::DMatrix::from_column_slice(a.nrows, a.ncols, &a.data));
    let mut p = nalgebra::DMatrix::<T>::identity(a.nrows, a.nrows);
    let mut q = p.clone();
    lu.p().permute_rows(&mut p);
    lu.q().permute_columns(&mut q);
    let n = a.nrows;
    (RawMatrix { nrows: n, ncols: n, data: p.as_slice().to_vec() },
     RawMatrix { nrows: n, ncols: n, data: q.as_slice().to_vec() },
     RawMatrix { nrows: n, ncols: n, data: lu.l().as_slice().to_vec() },
     RawMatrix { nrows: n, ncols: n, data: lu.u().as_slice().to_vec() })
}

} // verus!
