//! The numeric backend's reductions and vector geometry.
//!
//! Each function hands one or two [`RawMatrix`] values to one nalgebra
//! method. The scalar results are not described; the shapes of matrix
//! results are, and the inputs on which nalgebra panics (shape mismatches it
//! asserts) are left out by `requires`.

use vstd::prelude::*;
use crate::backend::shaped;
use crate::raw::RawMatrix;

verus! {

/// nalgebra's `Matrix::sum`. Nothing is claimed of the value.
#[verifier::external_body]
pub(crate) fn na_sum<T: nalgebra::ComplexField + Copy>(a: &RawMatrix<T>) -> (r: T)
    requires
        a.wf(),
{
    nalgebra::DMatrix::from_column_slice(a.nrows, a.ncols, &a.data).sum()
}

/// nalgebra's `Matrix::mean`. Nothing is claimed of the value.
#[verifier::external_body]
pub(crate) fn na_mean<T: nalgebra::ComplexField + Copy>(a: &RawMatrix<T>) -> (r: T)
    requires
        a.wf(),
{
    nalgebra::DMatrix::from_column_slice(a.nrows, a.ncols, &a.data).mean()
}

/// nalgebra's `Matrix::variance` (population variance of all entries).
/// Nothing is claimed of the value.
#[verifier::external_body]
pub(crate) fn na_variance<T: nalgebra::ComplexField + Copy>(a: &RawMatrix<T>) -> (r: T)
    requires
        a.wf(),
{
    nalgebra::DMatrix::from_column_slice(a.nrows, a.ncols, &a.data).variance()
}

/// nalgebra's `Matrix::row_variance`: the `1 × ncols` row of column
/// variances.
#[verifier::external_body]
pub(crate) fn na_row_variance<T: nalgebra::ComplexField + Copy>(a: &RawMatrix<T>) -> (r: RawMatrix<T>)
    requires
        a.wf(),
    ensures
        shaped(r, 1, a.ncols as int),
{
    let p = nalgebra::DMatrix::from_column_slice(a.nrows, a.ncols, &a.data).row_variance();
    RawMatrix { nrows: p.nrows(), ncols: p.ncols(), data: p.as_slice().to_vec() }
}

/// nalgebra's `Matrix::column_variance`: the `nrows × 1` column of row
/// variances.
#[verifier::external_body]
pub(crate) fn na_column_variance<T: nalgebra::ComplexField + Copy>(a: &RawMatrix<T>) -> (r: RawMatrix<T>)
    requires
        a.wf(),
    ensures
        shaped(r, a.nrows as int, 1),
{
    let p = nalgebra::DMatrix::from_column_slice(a.nrows, a.ncols, &a.data).column_variance();
    RawMatrix { nrows: p.nrows(), ncols: p.ncols(), data: p.as_slice().to_vec() }
}

/// nalgebra's `Matrix::product` of all entries. Nothing is claimed of the
/// value.
#[verifier::external_body]
pub(crate) fn na_product<T: nalgebra::ComplexField + Copy>(a: &RawMatrix<T>) -> (r: T)
    requires
        a.wf(),
{
    nalgebra::DMatrix::from_column_slice(a.nrows, a.ncols, &a.data).product()
}

/// nalgebra's `Matrix::dot` of two matrices of one shape (it panics on a
/// mismatch). Nothing is claimed of the value.
#[verifier::external_body]
pub(crate) fn na_dot<T: nalgebra::ComplexField + Copy>(a: &RawMatrix<T>, b: &RawMatrix<T>) -> (r: T)
    requires
        a.wf(),
        b.wf(),
        a.nrows == b.nrows,
        a.ncols == b.ncols,
{
    let x = nalgebra::DMatrix::from_column_slice(a.nrows, a.ncols, &a.data);
    x.dot(&nalgebra::DMatrix::from_column_slice(b.nrows, b.ncols, &b.data))
}

/// nalgebra's `Matrix::cross` of two `3 × 1` columns. Claims a `3 × 1`
/// result.
#[verifier::external_body]
pub(crate) fn na_cross<T: nalgebra::ComplexField + Copy>(a: &RawMatrix<T>, b: &RawMatrix<T>) -> (r: RawMatrix<T>)
    requires
        a.wf(),
        b.wf(),
        a.nrows == 3,
        a.ncols == 1,
        b.nrows == 3,
        b.ncols == 1,
    ensures
        shaped(r, 3, 1),
{
    let x = nalgebra::DVector::from_column_slice(&a.data);
    let p = x.cross(&nalgebra::DVector::from_column_slice(&b.data));
    RawMatrix { nrows: p.nrows(), ncols: p.ncols(), data: p.as_slice().to_vec() }
}

/// nalgebra's `Matrix::add_scalar`, which adds `s` to each entry in place
/// (`+=`, the compound form of the scalar `+`). Claims that the shape is kept
/// and that each entry stands to the old one and `s` as vstd's `add_ensures`
/// says.
#[verifier::external_body]
pub(crate) fn na_add_scalar<T: nalgebra::ComplexField + Copy>(a: &RawMatrix<T>, s: T) -> (r: RawMatrix<T>)
    requires
        a.wf(),
    ensures
        shaped(r, a.nrows as int, a.ncols as int),
        forall|i: int, j: int| 0 <= i < a.nrows && 0 <= j < a.ncols ==>
            vstd::std_specs::ops::add_ensures::<T>(a.at(i, j), s, #[trigger] r.at(i, j)),
{
    let p = nalgebra::DMatrix::from_column_slice(a.nrows, a.ncols, &a.data).add_scalar(s);
    RawMatrix { nrows: p.nrows(), ncols: p.ncols(), data: p.as_slice().to_vec() }
}

/// nalgebra's `Matrix::normalize` (every entry over the Frobenius norm).
/// Claims that the shape is kept.
#[verifier::external_body]
pub(crate) fn na_normalize<T: nalgebra::ComplexField + Copy>(a: &RawMatrix<T>) -> (r: RawMatrix<T>)
    requires
        a.wf(),
    ensures
        shaped(r, a.nrows as int, a.ncols as int),
{
    let p = nalgebra::DMatrix::from_column_slice(a.nrows, a.ncols, &a.data).normalize();
    RawMatrix { nrows: p.nrows(), ncols: p.ncols(), data: p.as_slice().to_vec() }
}

/// nalgebra's `Matrix::try_normalize(min_norm)` of a real matrix (`None`
/// when its norm is at most `min_norm`). Claims that a returned matrix keeps
/// the shape.
#[verifier::external_body]
pub(crate) fn na_try_normalize<T: nalgebra::RealField + Copy>(a: &RawMatrix<T>, min_norm: T) -> (r: Option<RawMatrix<T>>)
    requires
        a.wf(),
    ensures
        r matches Some(m) ==> shaped(m, a.nrows as int, a.ncols as int),
{
    match nalgebra::DMatrix::from_column_slice(a.nrows, a.ncols, &a.data).try_normalize(min_norm) {
        Some(p) => Some(RawMatrix { nrows: p.nrows(), ncols: p.ncols(), data: p.as_slice().to_vec() }),
        None => None,
    }
}

/// nalgebra's `Matrix::norm` (Frobenius) of a real matrix. Nothing is
/// claimed of the value.
#[verifier::external_body]
pub(crate) fn na_norm<T: nalgebra::RealField + Copy>(a: &RawMatrix<T>) -> (r: T)
    requires
        a.wf(),
{
    nalgebra::DMatrix::from_column_slice(a.nrows, a.ncols, &a.data).norm()
}

/// nalgebra's `Matrix::magnitude` of a real matrix. Nothing is claimed of the
/// value.
#[verifier::external_body]
pub(crate) fn na_magnitude<T: nalgebra::RealField + Copy>(a: &RawMatrix<T>) -> (r: T)
    requires
        a.wf(),
{
    nalgebra::DMatrix::from_column_slice(a.nrows, a.ncols, &a.data).magnitude()
}

/// nalgebra's `Matrix::norm_squared` of a real matrix. Nothing is claimed of
/// the value.
#[verifier::external_body]
pub(crate) fn na_norm_squared<T: nalgebra::RealField + Copy>(a: &RawMatrix<T>) -> (r: T)
    requires
        a.wf(),
{
    nalgebra::DMatrix::from_column_slice(a.nrows, a.ncols, &a.data).norm_squared()
}

/// nalgebra's `Matrix::magnitude_squared` of a real matrix. Nothing is
/// claimed of the value.
#[verifier::external_body]
pub(crate) fn na_magnitude_squared<T: nalgebra::RealField + Copy>(a: &RawMatrix<T>) -> (r: T)
    requires
        a.wf(),
{
    nalgebra::DMatrix::from_column_slice(a.nrows, a.ncols, &a.data).magnitude_squared()
}

/// nalgebra's `Matrix::lp_norm(p)` of a real matrix. Nothing is claimed of
/// the value.
#[verifier::external_body]
pub(crate) fn na_lp_norm<T: nalgebra::RealField + Copy>(a: &RawMatrix<T>, p: i32) -> (r: T)
    requires
        a.wf(),
{
    nalgebra::DMatrix::from_column_slice(a.nrows, a.ncols, &a.data).lp_norm(p)
}

/// nalgebra's `Matrix::max` of a real matrix. Nothing is claimed of the
/// value.
#[verifier::external_body]
pub(crate) fn na_max<T: nalgebra::RealField + Copy>(a: &RawMatrix<T>) -> (r: T)
    requires
        a.wf(),
{
    nalgebra::DMatrix::from_column_slice(a.nrows, a.ncols, &a.data).max()
}

/// nalgebra's `Matrix::min` of a real matrix. Nothing is claimed of the
/// value.
#[verifier::external_body]
pub(crate) fn na_min<T: nalgebra::RealField + Copy>(a: &RawMatrix<T>) -> (r: T)
    requires
        a.wf(),
{
    nalgebra::DMatrix::from_column_slice(a.nrows, a.ncols, &a.data).min()
}

/// nalgebra's `Matrix::amax` of a real matrix. Nothing is claimed of the
/// value.
#[verifier::external_body]
pub(crate) fn na_amax<T: nalgebra::RealField + Copy>(a: &RawMatrix<T>) -> (r: T)
    requires
        a.wf(),
{
    nalgebra::DMatrix::from_column_slice(a.nrows, a.ncols, &a.data).amax()
}

/// nalgebra's `Matrix::amin` of a real matrix. Nothing is claimed of the
/// value.
#[verifier::external_body]
pub(crate) fn na_amin<T: nalgebra::RealField + Copy>(a: &RawMatrix<T>) -> (r: T)
    requires
        a.wf(),
{
    nalgebra::DMatrix::from_column_slice(a.nrows, a.ncols, &a.data).amin()
}

/// nalgebra's `Matrix::angle` between two real columns of one length.
/// Nothing is claimed of the value.
#[verifier::external_body]
pub(crate) fn na_angle<T: nalgebra::RealField + Copy>(a: &RawMatrix<T>, b: &RawMatrix<T>) -> (r: T)
    requires
        a.wf(),
        b.wf(),
        a.ncols == 1,
        b.ncols == 1,
        a.nrows == b.nrows,
{
    let x = nalgebra::DVector::from_column_slice(&a.data);
    x.angle(&nalgebra::DVector::from_column_slice(&b.data))
}

/// nalgebra's `Matrix::metric_distance` between two real columns of one
/// length. Nothing is claimed of the value.
#[verifier::external_body]
pub(crate) fn na_metric_distance<T: nalgebra::RealField + Copy>(a: &RawMatrix<T>, b: &RawMatrix<T>) -> (r: T)
    requires
        a.wf(),
        b.wf(),
        a.ncols == 1,
        b.ncols == 1,
        a.nrows == b.nrows,
{
    let x = nalgebra::DVector::from_column_slice(&a.data);
    x.metric_distance(&nalgebra::DVector::from_column_slice(&b.data))
}

/// nalgebra's `Vector::slerp` between two real columns of one length. Claims
/// a column of that length.
#[verifier::external_body]
pub(crate) fn na_slerp<T: nalgebra::RealField + Copy>(a: &RawMatrix<T>, b: &RawMatrix<T>, t: T) -> (r: RawMatrix<T>)
    requires
        a.wf(),
        b.wf(),
        a.ncols == 1,
        b.ncols == 1,
        a.nrows == b.nrows,
    ensures
        shaped(r, a.nrows as int, 1),
{
    let x = nalgebra::DVector::from_column_slice(&a.data);
    let p = x.slerp(&nalgebra::DVector::from_column_slice(&b.data), t);
    RawMatrix { nrows: p.nrows(), ncols: p.ncols(), data: p.as_slice().to_vec() }
}

} // verus!
