//! The numeric backend's matrix decompositions.
//!
//! Each function hands one [`RawMatrix`] to one nalgebra decomposition and
//! returns its factors as storage. As in [`crate::backend`], the contracts
//! state the shapes nalgebra documents, leave out by `requires` the inputs on
//! which nalgebra panics (non-square or empty matrices, as its source
//! asserts), and keep optional what nalgebra returns as optional; the entries
//! are not described.

use vstd::prelude::*;
use crate::backend::shaped;
use crate::raw::RawMatrix;

verus! {

/// The smaller of two sizes.
pub open spec fn min_dim(a: int, b: int) -> int {
    if a <= b { a } else { b }
}

/// nalgebra's `Matrix::cholesky(a).l()` for a square `a` (`None` when `a` is
/// not positive-definite). Claims that a returned factor is `n × n`.
#[verifier::external_body]
pub(crate) fn na_cholesky_l<T: nalgebra::ComplexField + Copy>(a: &RawMatrix<T>) -> (r: Option<RawMatrix<T>>)
    requires
        a.wf(),
        a.nrows == a.ncols,
    ensures
        r matches Some(m) ==> shaped(m, a.nrows as int, a.nrows as int),
{
    let x = nalgebra::DMatrix::from_column_slice(a.nrows, a.ncols, &a.data);
    match x.cholesky() {
        Some(c) => { let l = c.l(); Some(RawMatrix { nrows: l.nrows(), ncols: l.ncols(), data: l.as_slice().to_vec() }) },
        None => None,
    }
}

/// nalgebra's `Cholesky::solve(b)` on the factorization whose lower factor
/// is the square `l` (`Cholesky::pack_dirty(l)`: forward substitution
/// through `l`, then back substitution through `lᴴ`; only the lower triangle
/// of `l` is read). Claims the shape of `b`.
#[verifier::external_body]
pub(crate) fn na_cholesky_solve<T: nalgebra::ComplexField + Copy>(l: &RawMatrix<T>, b: &RawMatrix<T>) -> (r: RawMatrix<T>)
    requires
        l.wf(),
        b.wf(),
        l.nrows == l.ncols,
        b.nrows == l.nrows,
    ensures
        shaped(r, b.nrows as int, b.ncols as int),
{
    let x = nalgebra::DMatrix::from_column_slice(l.nrows, l.ncols, &l.data);
    let y = nalgebra::DMatrix::from_column_slice(b.nrows, b.ncols, &b.data);
    let p = nalgebra::Cholesky::pack_dirty(x).solve(&y);
    RawMatrix { nrows: p.nrows(), ncols: p.ncols(), data: p.as_slice().to_vec() }
}

/// nalgebra's `Cholesky::inverse()` on the factorization whose lower factor
/// is the square `l` (`Cholesky::pack_dirty(l)`). Claims `n × n`.
#[verifier::external_body]
pub(crate) fn na_cholesky_inverse<T: nalgebra::ComplexField + Copy>(l: &RawMatrix<T>) -> (r: RawMatrix<T>)
    requires
        l.wf(),
        l.nrows == l.ncols,
    ensures
        shaped(r, l.nrows as int, l.nrows as int),
{
    let x = nalgebra::DMatrix::from_column_slice(l.nrows, l.ncols, &l.data);
    let p = nalgebra::Cholesky::pack_dirty(x).inverse();
    RawMatrix { nrows: p.nrows(), ncols: p.ncols(), data: p.as_slice().to_vec() }
}

/// nalgebra's `Cholesky::determinant()` on the factorization whose lower
/// factor is the square `l` (`Cholesky::pack_dirty(l)`: the squared modulus
/// of the product of the diagonal), a real number moved into the scalar type
/// by `ComplexField::from_real`. Nothing is claimed of the value.
#[verifier::external_body]
pub(crate) fn na_cholesky_determinant<T: nalgebra::ComplexField + Copy>(l: &RawMatrix<T>) -> (r: T)
    requires
        l.wf(),
        l.nrows == l.ncols,
{
    let x = nalgebra::DMatrix::from_column_slice(l.nrows, l.ncols, &l.data);
    T::from_real(nalgebra::Cholesky::pack_dirty(x).determinant())
}

/// nalgebra's `QR::new(a).unpack()`: `Q` (`m × min(m, n)`) and `R`
/// (`min(m, n) × n`).
#[verifier::external_body]
pub(crate) fn na_qr<T: nalgebra::ComplexField + Copy>(a: &RawMatrix<T>) -> (r: (RawMatrix<T>, RawMatrix<T>))
    requires
        a.wf(),
    ensures
        shaped(r.0, a.nrows as int, min_dim(a.nrows as int, a.ncols as int)),
        shaped(r.1, min_dim(a.nrows as int, a.ncols as int), a.ncols as int),
{
    let x = nalgebra::DMatrix::from_column_slice(a.nrows, a.ncols, &a.data);
    let (q, r) = x.qr().unpack();
    (RawMatrix { nrows: q.nrows(), ncols: q.ncols(), data: q.as_slice().to_vec() },
     RawMatrix { nrows: r.nrows(), ncols: r.ncols(), data: r.as_slice().to_vec() })
}

/// nalgebra's `ColPivQR::new(a).unpack()`: `Q` (`m × min(m, n)`), `R`
/// (`min(m, n) × n`) and the column permutation as a matrix (the `n × n`
/// identity with the permutation applied to its columns).
#[verifier::external_body]
pub(crate) fn na_col_piv_qr<T: nalgebra::ComplexField + Copy>(a: &RawMatrix<T>) -> (r: (RawMatrix<T>, RawMatrix<T>, RawMatrix<T>))
    requires
        a.wf(),
    ensures
        shaped(r.0, a.nrows as int, min_dim(a.nrows as int, a.ncols as int)),
        shaped(r.1, min_dim(a.nrows as int, a.ncols as int), a.ncols as int),
        shaped(r.2, a.ncols as int, a.ncols as int),
{
    let x = nalgebra::DMatrix::from_column_slice(a.nrows, a.ncols, &a.data);
    let (q, r, p) = x.col_piv_qr().unpack();
    let mut pm = nalgebra::DMatrix::<T>::identity(a.ncols, a.ncols);
    p.permute_columns(&mut pm);
    (RawMatrix { nrows: q.nrows(), ncols: q.ncols(), data: q.as_slice().to_vec() },
     RawMatrix { nrows: r.nrows(), ncols: r.ncols(), data: r.as_slice().to_vec() },
     RawMatrix { nrows: pm.nrows(), ncols: pm.ncols(), data: pm.as_slice().to_vec() })
}

/// nalgebra's bounded singular value decomposition of a non-empty real
/// matrix (nalgebra panics on an empty one), `SVD::try_new_unordered(a,
/// true, true, default_epsilon, max_niter)`: `U` (`m × min`), the singular
/// values (a `min × 1` column, in the order the iteration leaves them) and
/// `Vᵀ` (`min × n`); `None` when the iteration does not converge within
/// `max_niter` sweeps. (The sorted form panics on a NaN singular value.)
#[verifier::external_body]
pub(crate) fn na_svd<T: nalgebra::RealField + Copy>(a: &RawMatrix<T>, max_niter: usize) -> (r: Option<(RawMatrix<T>, RawMatrix<T>, RawMatrix<T>)>)
    requires
        a.wf(),
        a.nrows > 0,
        a.ncols > 0,
        max_niter > 0,
    ensures
        r matches Some(f) ==> shaped(f.0, a.nrows as int, min_dim(a.nrows as int, a.ncols as int))
            && shaped(f.1, min_dim(a.nrows as int, a.ncols as int), 1)
            && shaped(f.2, min_dim(a.nrows as int, a.ncols as int), a.ncols as int),
{
    let x = nalgebra::DMatrix::from_column_slice(a.nrows, a.ncols, &a.data);
    match nalgebra::SVD::try_new_unordered(x, true, true, T::default_epsilon(), max_niter) {
        Some(s) => {
            let (u, v) = (s.u.unwrap(), s.v_t.unwrap());
            Some((RawMatrix { nrows: u.nrows(), ncols: u.ncols(), data: u.as_slice().to_vec() },
                RawMatrix { nrows: s.singular_values.len(), ncols: 1, data: s.singular_values.as_slice().to_vec() },
                RawMatrix { nrows: v.nrows(), ncols: v.ncols(), data: v.as_slice().to_vec() }))
        },
        None => None,
    }
}

/// nalgebra's pseudo-inverse of a non-empty real matrix through its bounded
/// decomposition, `SVD::try_new_unordered(a, true, true, default_epsilon,
/// max_niter)` then `SVD::pseudo_inverse(eps)` (what `Matrix::pseudo_inverse`
/// does without the bound). `None` when the decomposition does not converge
/// within `max_niter` sweeps; otherwise nalgebra's result. Claims that a
/// returned pseudo-inverse is `n × m`, and that the error is the one message
/// nalgebra's source gives (when `eps` is negative).
#[verifier::external_body]
pub(crate) fn na_pseudo_inverse<T: nalgebra::RealField + Copy>(a: &RawMatrix<T>, eps: T, max_niter: usize) -> (r: Option<Result<RawMatrix<T>, &'static str>>)
    requires
        a.wf(),
        a.nrows > 0,
        a.ncols > 0,
        max_niter > 0,
    ensures
        r matches Some(Ok(m)) ==> shaped(m, a.ncols as int, a.nrows as int),
        r matches Some(Err(e)) ==> e@ == "SVD pseudo inverse: the epsilon must be non-negative."@,
{
    let x = nalgebra::DMatrix::from_column_slice(a.nrows, a.ncols, &a.data);
    match nalgebra::SVD::try_new_unordered(x, true, true, T::default_epsilon(), max_niter) {
        Some(s) => match s.pseudo_inverse(eps) {
            Ok(p) => Some(Ok(RawMatrix { nrows: p.nrows(), ncols: p.ncols(), data: p.as_slice().to_vec() })),
            Err(e) => Some(Err(e)),
        },
        None => None,
    }
}

/// nalgebra's bounded Schur decomposition of a non-empty real square matrix,
/// `Schur::try_new(a, default_epsilon, max_niter).unpack()`: `Q` and `T`,
/// both `n × n`; `None` when the iteration does not converge within
/// `max_niter` sweeps.
#[verifier::external_body]
pub(crate) fn na_schur<T: nalgebra::RealField + Copy>(a: &RawMatrix<T>, max_niter: usize) -> (r: Option<(RawMatrix<T>, RawMatrix<T>)>)
    requires
        a.wf(),
        a.nrows == a.ncols,
        a.nrows > 0,
        max_niter > 0,
    ensures
        r matches Some(f) ==> shaped(f.0, a.nrows as int, a.nrows as int) && shaped(f.1, a.nrows as int, a.nrows as int),
{
    let x = nalgebra::DMatrix::from_column_slice(a.nrows, a.ncols, &a.data);
    match nalgebra::Schur::try_new(x, T::default_epsilon(), max_niter) {
        Some(s) => {
            let (q, t) = s.unpack();
            Some((RawMatrix { nrows: q.nrows(), ncols: q.ncols(), data: q.as_slice().to_vec() },
                RawMatrix { nrows: t.nrows(), ncols: t.ncols(), data: t.as_slice().to_vec() }))
        },
        None => None,
    }
}

/// nalgebra's `Matrix::hessenberg().unpack()` of a non-empty square matrix
/// (nalgebra asserts both): `Q` and `H`, both `n × n`.
#[verifier::external_body]
pub(crate) fn na_hessenberg<T: nalgebra::ComplexField + Copy>(a: &RawMatrix<T>) -> (r: (RawMatrix<T>, RawMatrix<T>))
    requires
        a.wf(),
        a.nrows == a.ncols,
        a.nrows > 0,
    ensures
        shaped(r.0, a.nrows as int, a.nrows as int),
        shaped(r.1, a.nrows as int, a.nrows as int),
{
    let x = nalgebra::DMatrix::from_column_slice(a.nrows, a.ncols, &a.data);
    let (q, h) = x.hessenberg().unpack();
    (RawMatrix { nrows: q.nrows(), ncols: q.ncols(), data: q.as_slice().to_vec() },
     RawMatrix { nrows: h.nrows(), ncols: h.ncols(), data: h.as_slice().to_vec() })
}

/// nalgebra's bounded symmetric eigendecomposition of a non-empty real
/// square matrix, `SymmetricEigen::try_new(a, default_epsilon, max_niter)`:
/// the eigenvectors (`n × n`) and the eigenvalues (an `n × 1` column);
/// `None` when the iteration does not converge within `max_niter` sweeps.
#[verifier::external_body]
pub(crate) fn na_symmetric_eigen<T: nalgebra::RealField + Copy>(a: &RawMatrix<T>, max_niter: usize) -> (r: Option<(RawMatrix<T>, RawMatrix<T>)>)
    requires
        a.wf(),
        a.nrows == a.ncols,
        a.nrows > 0,
        max_niter > 0,
    ensures
        r matches Some(f) ==> shaped(f.0, a.nrows as int, a.nrows as int) && shaped(f.1, a.nrows as int, 1),
{
    let x = nalgebra::DMatrix::from_column_slice(a.nrows, a.ncols, &a.data);
    match nalgebra::SymmetricEigen::try_new(x, T::default_epsilon(), max_niter) {
        Some(e) => Some((RawMatrix { nrows: a.nrows, ncols: a.nrows, data: e.eigenvectors.as_slice().to_vec() },
            RawMatrix { nrows: a.nrows, ncols: 1, data: e.eigenvalues.as_slice().to_vec() })),
        None => None,
    }
}

/// nalgebra's `Matrix::symmetric_tridiagonalize().unpack()` of a non-empty
/// real square matrix (nalgebra asserts both): `Q` (`n × n`), the diagonal
/// (`n` entries) and the off-diagonal (`n - 1` entries).
#[verifier::external_body]
pub(crate) fn na_symmetric_tridiagonalize<T: nalgebra::RealField + Copy>(a: &RawMatrix<T>) -> (r: (RawMatrix<T>, Vec<T>, Vec<T>))
    requires
        a.wf(),
        a.nrows == a.ncols,
        a.nrows > 0,
    ensures
        shaped(r.0, a.nrows as int, a.nrows as int),
        r.1.len() == a.nrows,
        r.2.len() == a.nrows - 1,
{
    let x = nalgebra::DMatrix::from_column_slice(a.nrows, a.ncols, &a.data);
    let (q, d, o) = x.symmetric_tridiagonalize().unpack();
    (RawMatrix { nrows: q.nrows(), ncols: q.ncols(), data: q.as_slice().to_vec() },
     d.as_slice().to_vec(), o.as_slice().to_vec())
}

/// nalgebra's `Matrix::udu()` of a non-empty real square matrix (`None` when
/// a pivot is zero): `U` (`n × n`) and the diagonal `D` (an `n × 1` column).
#[verifier::external_body]
pub(crate) fn na_udu<T: nalgebra::RealField + Copy>(a: &RawMatrix<T>) -> (r: Option<(RawMatrix<T>, RawMatrix<T>)>)
    requires
        a.wf(),
        a.nrows == a.ncols,
        a.nrows > 0,
    ensures
        r matches Some(f) ==> shaped(f.0, a.nrows as int, a.nrows as int) && shaped(f.1, a.nrows as int, 1),
{
    let x = nalgebra::DMatrix::from_column_slice(a.nrows, a.ncols, &a.data);
    match x.udu() {
        Some(f) => Some((RawMatrix { nrows: a.nrows, ncols: a.nrows, data: f.u.as_slice().to_vec() },
                         RawMatrix { nrows: a.nrows, ncols: 1, data: f.d.as_slice().to_vec() })),
        None => None,
    }
}

/// nalgebra's `Matrix::bidiagonalize().unpack()` of a matrix with no empty
/// axis (nalgebra asserts it): `U` (`m × min`), the bidiagonal `D`
/// (`min × min`) and `Vᵀ` (`min × n`).
#[verifier::external_body]
pub(crate) fn na_bidiagonalize<T: nalgebra::ComplexField + Copy>(a: &RawMatrix<T>) -> (r: (RawMatrix<T>, RawMatrix<T>, RawMatrix<T>))
    requires
        a.wf(),
        a.nrows > 0,
        a.ncols > 0,
    ensures
        shaped(r.0, a.nrows as int, min_dim(a.nrows as int, a.ncols as int)),
        shaped(r.1, min_dim(a.nrows as int, a.ncols as int), min_dim(a.nrows as int, a.ncols as int)),
        shaped(r.2, min_dim(a.nrows as int, a.ncols as int), a.ncols as int),
{
    let x = nalgebra::DMatrix::from_column_slice(a.nrows, a.ncols, &a.data);
    let (u, d, v) = x.bidiagonalize().unpack();
    (RawMatrix { nrows: u.nrows(), ncols: u.ncols(), data: u.as_slice().to_vec() },
     RawMatrix { nrows: d.nrows(), ncols: d.ncols(), data: d.as_slice().to_vec() },
     RawMatrix { nrows: v.nrows(), ncols: v.ncols(), data: v.as_slice().to_vec() })
}

} // verus!
