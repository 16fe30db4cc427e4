use whippyalgebra::generalized::metric_factor_error;
use whippyalgebra::matrix::MixedUnitMatrix;
use whippyalgebra::raw::RawMatrix;
use whippyalgebra::uniform::UniformUnitMatrix;
use whippyalgebra::unit::Unit;

fn dim(mass: i16, length: i16, time: i16) -> Unit {
    Unit::from_exponents([0, 0, 0, 0, mass, length, time, 0, 0, 0, 0, 0])
}

fn m() -> Unit {
    dim(0, 1, 0)
}

fn s() -> Unit {
    dim(0, 0, 1)
}

fn kg() -> Unit {
    dim(1, 0, 0)
}

fn one() -> Unit {
    Unit::dimensionless()
}

fn close(a: &[f64], b: &[f64]) -> bool {
    a.len() == b.len() && a.iter().zip(b).all(|(x, y)| (x - y).abs() < 1e-9)
}

fn sorted(v: &[f64]) -> Vec<f64> {
    let mut w = v.to_vec();
    w.sort_by(|x, y| x.partial_cmp(y).unwrap());
    w
}

fn mixed(rows: Vec<Unit>, cols: Vec<Unit>, by_row: &[f64]) -> MixedUnitMatrix<f64> {
    let (r, c) = (rows.len(), cols.len());
    MixedUnitMatrix::new(RawMatrix::from_row_slice(r, c, by_row), rows, cols)
}

/// The metric ⟨[m, s], [1/m, 1/s]⟩ = [[4, 2], [2, 3]].
fn metric() -> MixedUnitMatrix<f64> {
    mixed(vec![m(), s()], vec![m().inv(), s().inv()], &[4.0, 2.0, 2.0, 3.0])
}

fn identity_metric(d: &[Unit]) -> MixedUnitMatrix<f64> {
    let n = d.len();
    let mut data = vec![0.0; n * n];
    for i in 0..n {
        data[i * n + i] = 1.0;
    }
    mixed(d.iter().map(|u| u.inv()).collect(), d.to_vec(), &data)
}

#[test]
fn unit_square_roots() {
    assert_eq!(dim(2, -4, 0).sqrt(), Some(dim(1, -2, 0)));
    assert_eq!(dim(1, 0, 0).sqrt(), None);
    assert_eq!(one().sqrt(), Some(one()));
}

#[test]
fn metric_cholesky_factor_solve_inverse_determinant() {
    let c = metric().cholesky().unwrap();
    assert_eq!(c.l.row_dims, vec![m(), s()]);
    assert_eq!(c.l.col_dims, vec![one(), one()]);
    assert!(close(&c.l.nalgebra().data, &[2.0, 1.0, 0.0, 2f64.sqrt()]));
    let b = mixed(vec![m(), s()], vec![one()], &[6.0, 5.0]);
    let x = c.solve(&b);
    assert!(close(&x.nalgebra().data, &[1.0, 1.0]));
    assert_eq!(x.row_dims, vec![m().inv(), s().inv()]);
    let inv = c.inverse();
    assert!(close(&inv.nalgebra().data, &[0.375, -0.25, -0.25, 0.5]));
    assert_eq!(inv.row_dims, vec![m().inv(), s().inv()]);
    assert_eq!(inv.col_dims, vec![m(), s()]);
    let d = c.determinant();
    assert!((d.value - 8.0).abs() < 1e-9);
    assert_eq!(d.unit, dim(0, 2, 2));
}

#[test]
fn metric_cholesky_of_indefinite_is_none() {
    let g = mixed(vec![m(), s()], vec![m().inv(), s().inv()], &[1.0, 2.0, 2.0, 1.0]);
    assert!(g.cholesky().is_none());
}

#[test]
fn metric_similarity_forms_recompose() {
    let a = metric();
    let sch = a.schur().unwrap();
    assert_eq!(sch.q.row_dims, a.row_dims);
    assert_eq!(sch.q.col_dims, vec![one(), one()]);
    assert_eq!(sch.t.unit, one());
    let back = sch.recompose();
    assert!(close(&back.nalgebra().data, &a.nalgebra().data));
    assert_eq!(back.col_dims, a.col_dims);
    let h = a.hessenberg();
    assert!(close(&h.recompose().nalgebra().data, &a.nalgebra().data));
    let t = a.symmetric_tridiagonalize();
    assert!(close(&t.recompose().nalgebra().data, &a.nalgebra().data));
}

#[test]
fn metric_symmetric_eigen_and_udu() {
    let a = mixed(vec![m(), s()], vec![m().inv(), s().inv()], &[2.0, 0.0, 0.0, 3.0]);
    let e = a.symmetric_eigen().unwrap();
    assert_eq!(e.eigenvalues.unit, one());
    assert!(close(&sorted(&e.eigenvalues.inner.data), &[2.0, 3.0]));
    assert_eq!(e.eigenvectors.row_dims, a.row_dims);
    let back = e.recompose();
    assert!(close(&back.nalgebra().data, &a.nalgebra().data));
    assert_eq!(back.col_dims, a.col_dims);
    let f = metric().udu().unwrap();
    assert_eq!(f.u.col_dims, vec![one(), one()]);
    assert!(close(&f.recompose().nalgebra().data, &metric().nalgebra().data));
}

#[test]
fn metric_generalized_symmetric_eigen() {
    let k = mixed(vec![m(), s()], vec![m().inv(), s().inv()], &[2.0, 0.0, 0.0, 8.0]);
    let mass = mixed(vec![m(), s()], vec![m().inv(), s().inv()], &[1.0, 0.0, 0.0, 2.0]);
    let e = k.generalized_symmetric_eigen(&mass).unwrap();
    assert!(close(&sorted(&e.eigenvalues.inner.data), &[2.0, 4.0]));
    assert_eq!(e.eigenvectors.row_dims, vec![m().inv(), s().inv()]);
    let back = e.recompose(&mass);
    assert!(close(&back.nalgebra().data, &[2.0, 0.0, 0.0, 8.0]));
}

#[test]
fn generalized_qr_recomposes_with_pivot_axis() {
    let a = mixed(vec![m(), s()], vec![kg()], &[3.0, 4.0]);
    let g_r = identity_metric(&[m(), s()]);
    let f = a.generalized_qr(&g_r).unwrap();
    assert_eq!(f.q.row_dims, vec![m(), s()]);
    assert_eq!(f.q.col_dims, vec![one()]);
    assert_eq!(f.r.row_dims, vec![one()]);
    assert_eq!(f.r.col_dims, vec![kg()]);
    let back = f.recompose();
    assert!(close(&back.nalgebra().data, &[3.0, 4.0]));
    assert_eq!(back.col_dims, vec![kg()]);
}

#[test]
fn generalized_col_piv_qr_recompose_and_solve() {
    let a = mixed(vec![m(), s()], vec![kg(), one()], &[2.0, 1.0, 1.0, 3.0]);
    let a2 = mixed(vec![m(), s()], vec![kg(), one()], &[2.0, 1.0, 1.0, 3.0]);
    let g_r = identity_metric(&[m(), s()]);
    let g_c = identity_metric(&[kg(), one()]);
    let f = a.generalized_col_piv_qr(&g_r, &g_c).unwrap();
    let back = f.recompose();
    assert!(close(&back.nalgebra().data, &a2.nalgebra().data));
    assert_eq!(back.col_dims, vec![kg(), one()]);
    let b = mixed(vec![m(), s()], vec![one()], &[3.0, 4.0]);
    let x = f.solve(&b).unwrap();
    assert!(close(&x.nalgebra().data, &[1.0, 1.0]));
    assert_eq!(x.row_dims, vec![kg(), one()]);
}

#[test]
fn generalized_svd_and_bidiagonalization() {
    let a = mixed(vec![m(), s()], vec![kg(), one()], &[3.0, 0.0, 0.0, 4.0]);
    let a2 = mixed(vec![m(), s()], vec![kg(), one()], &[3.0, 0.0, 0.0, 4.0]);
    let a3 = mixed(vec![m(), s()], vec![kg(), one()], &[3.0, 0.0, 0.0, 4.0]);
    let g_r = identity_metric(&[m(), s()]);
    let g_c = identity_metric(&[kg(), one()]);
    let f = a.generalized_svd(&g_r, &g_c).unwrap();
    assert!(close(&sorted(&f.singular_values.inner.data), &[3.0, 4.0]));
    assert_eq!(f.u.row_dims, vec![m(), s()]);
    assert_eq!(f.v.row_dims, vec![kg(), one()]);
    let back = f.recompose(&g_c);
    assert!(close(&back.nalgebra().data, &a2.nalgebra().data));
    let b = a2.generalized_bidiagonalize(&g_r, &g_c).unwrap();
    assert_eq!(b.d.unit, one());
    assert!(close(&b.recompose(&g_c).nalgebra().data, &a3.nalgebra().data));
}

#[test]
fn generalized_pseudo_inverse_of_invertible_is_inverse() {
    let a = mixed(vec![m(), s()], vec![kg(), one()], &[2.0, 0.0, 0.0, 4.0]);
    let g_r = identity_metric(&[m(), s()]);
    let g_c = identity_metric(&[kg(), one()]);
    let p = a.generalized_pseudo_inverse(&g_r, &g_c, 1e-12).unwrap();
    assert!(close(&p.nalgebra().data, &[0.5, 0.0, 0.0, 0.25]));
    assert_eq!(p.row_dims, vec![kg(), one()]);
    assert_eq!(p.col_dims, vec![m(), s()]);
}

#[test]
fn generalized_pseudo_inverse_names_the_failing_metric() {
    let bad = mixed(vec![m().inv(), s().inv()], vec![m(), s()], &[1.0, 2.0, 2.0, 1.0]);
    let g_c = identity_metric(&[kg(), one()]);
    let a = mixed(vec![m(), s()], vec![kg(), one()], &[2.0, 0.0, 0.0, 4.0]);
    assert_eq!(a.generalized_pseudo_inverse(&bad, &g_c, 1e-12).err(), Some("codomain metric is not positive-definite"));
    let g_r = identity_metric(&[m(), s()]);
    let bad_c = mixed(vec![kg().inv(), one()], vec![kg(), one()], &[1.0, 2.0, 2.0, 1.0]);
    let a = mixed(vec![m(), s()], vec![kg(), one()], &[2.0, 0.0, 0.0, 4.0]);
    assert_eq!(a.generalized_pseudo_inverse(&g_r, &bad_c, 1e-12).err(), Some("domain metric is not positive-definite"));
    let a = mixed(vec![m(), s()], vec![kg(), one()], &[2.0, 0.0, 0.0, 4.0]);
    assert_eq!(
        a.generalized_pseudo_inverse(&g_r, &identity_metric(&[kg(), one()]), -1.0).err(),
        Some("SVD pseudo inverse: the epsilon must be non-negative.")
    );
}

fn uni(nrows: usize, ncols: usize, by_row: &[f64], unit: Unit) -> UniformUnitMatrix<f64> {
    UniformUnitMatrix::from_row_slice(nrows, ncols, by_row, unit)
}

#[test]
fn uniform_cholesky_roots_the_unit() {
    let a = uni(2, 2, &[4.0, 2.0, 2.0, 3.0], m().mul(&m()));
    let c = a.cholesky().unwrap();
    assert_eq!(c.l.unit, m());
    let b = UniformUnitMatrix::from_column_slice(2, 1, &[6.0, 5.0], m().mul(&m()).mul(&s()));
    let x = c.solve(&b);
    assert_eq!(x.unit, s());
    assert!(close(x.as_raw_slice(), &[1.0, 1.0]));
    let inv = c.inverse();
    assert_eq!(inv.unit, dim(0, -2, 0));
    assert!(uni(2, 2, &[1.0, 2.0, 2.0, 1.0], one()).cholesky().is_none());
}

#[test]
fn uniform_qr_family() {
    let a = uni(3, 2, &[1.0, 0.0, 0.0, 1.0, 1.0, 1.0], m());
    let f = a.qr();
    assert_eq!(f.q.unit, one());
    assert_eq!(f.r.unit, m());
    assert_eq!((f.q.inner.nrows, f.q.inner.ncols), (3, 2));
    assert!(close(f.recompose().as_raw_slice(), a.as_raw_slice()));
    let b = UniformUnitMatrix::from_column_slice(3, 1, &[1.0, 2.0, 3.0], m().mul(&s()));
    let x = f.solve(&b).unwrap();
    assert_eq!(x.unit, s());
    assert!(close(x.as_raw_slice(), &[1.0, 2.0]));
    let sq = uni(2, 2, &[2.0, 1.0, 1.0, 3.0], m());
    let inv = sq.qr().try_inverse().unwrap();
    assert_eq!(inv.unit, m().inv());
    assert!(close(inv.as_raw_slice(), &[0.6, -0.2, -0.2, 0.4]));
    let p = sq.col_piv_qr();
    assert!(close(p.recompose().as_raw_slice(), sq.as_raw_slice()));
    let b2 = UniformUnitMatrix::from_column_slice(2, 1, &[3.0, 4.0], m());
    let y = p.solve(&b2).unwrap();
    assert_eq!(y.unit, one());
    assert!(close(y.as_raw_slice(), &[1.0, 1.0]));
}

#[test]
fn uniform_svd_and_pseudo_inverse() {
    let a = uni(2, 2, &[3.0, 0.0, 0.0, 4.0], s());
    let f = a.svd().unwrap();
    assert_eq!(f.singular_values.unit, s());
    assert!(close(&sorted(f.singular_values.as_raw_slice()), &[3.0, 4.0]));
    assert!(close(f.recompose().as_raw_slice(), a.as_raw_slice()));
    let p = uni(2, 2, &[2.0, 0.0, 0.0, 4.0], s()).pseudo_inverse(1e-12).unwrap();
    assert_eq!(p.unit, s().inv());
    assert!(close(p.as_raw_slice(), &[0.5, 0.0, 0.0, 0.25]));
    assert_eq!(
        uni(2, 2, &[2.0, 0.0, 0.0, 4.0], s()).pseudo_inverse(-1.0).err(),
        Some("SVD pseudo inverse: the epsilon must be non-negative.")
    );
}

#[test]
fn uniform_similarity_forms_recompose() {
    let a = uni(3, 3, &[4.0, 1.0, 0.0, 1.0, 3.0, 1.0, 0.0, 1.0, 2.0], kg());
    let sch = a.schur().unwrap();
    assert_eq!(sch.t.unit, kg());
    assert!(close(sch.recompose().as_raw_slice(), a.as_raw_slice()));
    assert!(close(a.hessenberg().recompose().as_raw_slice(), a.as_raw_slice()));
    let t = a.symmetric_tridiagonalize();
    assert_eq!(t.q.unit, one());
    assert!(close(t.recompose().as_raw_slice(), a.as_raw_slice()));
    let b = a.bidiagonalize();
    assert_eq!(b.d.unit, kg());
    assert!(close(b.recompose().as_raw_slice(), a.as_raw_slice()));
    let a2 = uni(3, 3, &[4.0, 1.0, 0.0, 1.0, 3.0, 1.0, 0.0, 1.0, 2.0], kg());
    let u = a2.udu().unwrap();
    assert_eq!(u.d.unit, kg());
    assert!(close(u.recompose().as_raw_slice(), a.as_raw_slice()));
}

#[test]
fn uniform_generalized_eigenproblems() {
    let stiffness = dim(1, 0, -2);
    let k = uni(2, 2, &[2.0, 0.0, 0.0, 8.0], stiffness);
    let mass = uni(2, 2, &[1.0, 0.0, 0.0, 2.0], kg());
    let ev = k.generalized_eigenvalues(&mass).unwrap();
    assert_eq!(ev.unit, dim(0, 0, -2));
    assert!(close(&sorted(ev.as_raw_slice()), &[2.0, 4.0]));
    let mass2 = uni(2, 2, &[1.0, 0.0, 0.0, 2.0], kg().mul(&kg()));
    let e = k.generalized_symmetric_eigen(&mass2).unwrap();
    assert_eq!(e.eigenvalues.unit, stiffness.div(&kg().mul(&kg())));
    assert_eq!(e.eigenvectors.unit, kg().inv());
    assert!(close(&sorted(e.eigenvalues.as_raw_slice()), &[2.0, 4.0]));
    let back = e.recompose(&mass2);
    assert_eq!(back.unit, stiffness);
    assert!(close(back.as_raw_slice(), &[2.0, 0.0, 0.0, 8.0]));
}

#[test]
fn metric_factor_error_reports_the_first_failing_metric() {
    let f = || Some(RawMatrix::from_row_slice(1, 1, &[1.0]));
    let none: Option<RawMatrix<f64>> = None;
    assert_eq!(metric_factor_error(&none, &none), Some("codomain metric is not positive-definite"));
    assert_eq!(metric_factor_error(&none, &f()), Some("codomain metric is not positive-definite"));
    assert_eq!(metric_factor_error(&f(), &none), Some("domain metric is not positive-definite"));
    assert_eq!(metric_factor_error(&f(), &f()), None);
}
