use whippyalgebra::linalg::with_units;
use whippyalgebra::matrix::MixedUnitMatrix;
use whippyalgebra::raw::RawMatrix;
use whippyalgebra::unit::Unit;

fn dim(mass: i16, length: i16, time: i16) -> Unit {
    Unit::from_exponents([0, 0, 0, 0, mass, length, time, 0, 0, 0, 0, 0])
}

fn m() -> Unit {
    dim(0, 1, 0)
}

fn s() -> Unit {
    dim(0, 0, 1)
}

fn kg() -> Unit {
    dim(1, 0, 0)
}

fn one() -> Unit {
    Unit::dimensionless()
}

fn close(a: &[f64], b: &[f64]) -> bool {
    a.len() == b.len() && a.iter().zip(b).all(|(x, y)| (x - y).abs() < 1e-9)
}

fn square(rows: Vec<Unit>, cols: Vec<Unit>, by_row: &[f64]) -> MixedUnitMatrix<f64> {
    let n = rows.len();
    let c = cols.len();
    MixedUnitMatrix::new(RawMatrix::from_row_slice(n, c, by_row), rows, cols)
}

#[test]
fn with_units_keeps_none_and_tags_some() {
    let none: Option<MixedUnitMatrix<f64>> = with_units(None, vec![m()], vec![s()]);
    assert!(none.is_none());
    let raw = RawMatrix::from_row_slice(1, 1, &[3.0]);
    let some = with_units(Some(raw), vec![m()], vec![s()]).unwrap();
    assert_eq!(some.row_dims, vec![m()]);
    assert_eq!(some.col_dims, vec![s()]);
    assert_eq!(some.nalgebra().data, vec![3.0]);
}

#[test]
fn mixed_solve_gives_column_units() {
    // A: ⟨[m, kg], [s, s]⟩ = diag(2, 4); b: ⟨[m, kg], [1]⟩ = [2, 8].
    let a = square(vec![m(), kg()], vec![s(), s()], &[2.0, 0.0, 0.0, 4.0]);
    let b = square(vec![m(), kg()], vec![one()], &[2.0, 8.0]);
    let x = a.solve(&b).unwrap();
    assert!(close(&x.nalgebra().data, &[1.0, 2.0]));
    assert_eq!(x.row_dims, vec![s(), s()]);
    assert_eq!(x.col_dims, vec![one()]);
}

#[test]
fn mixed_solve_singular_is_none() {
    let a = square(vec![m(), m()], vec![s(), s()], &[1.0, 2.0, 2.0, 4.0]);
    let b = square(vec![m(), m()], vec![one()], &[1.0, 1.0]);
    assert!(a.solve(&b).is_none());
}

#[test]
fn mixed_triangular_solves() {
    let l = square(vec![m(), m()], vec![s(), s()], &[2.0, 0.0, 1.0, 1.0]);
    let b = square(vec![m(), m()], vec![one()], &[4.0, 5.0]);
    let x = l.solve_lower_triangular(&b).unwrap();
    assert!(close(&x.nalgebra().data, &[2.0, 3.0]));
    assert_eq!(x.row_dims, vec![s(), s()]);
    let u = square(vec![m(), m()], vec![s(), s()], &[1.0, 1.0, 0.0, 2.0]);
    let y = u.solve_upper_triangular(&b).unwrap();
    assert!(close(&y.nalgebra().data, &[1.5, 2.5]));
    let z = square(vec![m(), m()], vec![s(), s()], &[0.0, 0.0, 1.0, 1.0]);
    assert!(z.solve_lower_triangular(&b).is_none());
}

#[test]
fn mixed_inverse_swaps_unit_lists() {
    let a = square(vec![m(), kg()], vec![s(), one()], &[2.0, 0.0, 0.0, 4.0]);
    let inv = a.try_inverse().unwrap();
    assert!(close(&inv.nalgebra().data, &[0.5, 0.0, 0.0, 0.25]));
    assert_eq!(inv.row_dims, vec![s(), one()]);
    assert_eq!(inv.col_dims, vec![m(), kg()]);
    let singular = square(vec![m(), m()], vec![s(), s()], &[1.0, 2.0, 2.0, 4.0]);
    assert!(singular.try_inverse().is_none());
}

#[test]
fn mixed_inverse_products_are_dimensionless_identity() {
    let a = square(vec![m(), kg()], vec![s(), one()], &[1.0, 2.0, 3.0, 4.0]);
    let a2 = square(vec![m(), kg()], vec![s(), one()], &[1.0, 2.0, 3.0, 4.0]);
    let inv = a.try_inverse().unwrap();
    let p = a2.mul(&inv);
    assert_eq!(p.entry_unit(0, 0), one());
    assert_eq!(p.entry_unit(1, 1), one());
    assert_eq!(p.entry_unit(0, 1), m().div(&kg()));
    assert!(close(&p.nalgebra().data, &[1.0, 0.0, 0.0, 1.0]));
}

#[test]
fn mixed_determinant_value_and_unit() {
    let a = square(vec![m(), kg()], vec![s(), s()], &[1.0, 2.0, 3.0, 4.0]);
    let d = a.determinant();
    assert!((d.value - (-2.0)).abs() < 1e-9);
    assert_eq!(d.unit, dim(1, 1, -2));
}

#[test]
fn mixed_lu_recomposes() {
    let a = square(vec![m(), m(), m()], vec![s(), kg(), one()], &[2.0, 1.0, 1.0, 4.0, 3.0, 3.0, 8.0, 7.0, 9.0]);
    let f = a.lu();
    assert_eq!(f.u.row_dims, a.row_dims);
    assert_eq!(f.u.col_dims, a.col_dims);
    assert_eq!(f.l.col_dims, a.row_dims);
    let back = f.recompose();
    assert!(close(&back.nalgebra().data, &a.nalgebra().data));
    let b = square(vec![m(), m(), m()], vec![one()], &[4.0, 10.0, 24.0]);
    let x = f.solve(&b).unwrap();
    assert!(close(&x.nalgebra().data, &[1.0, 1.0, 1.0]));
    assert_eq!(x.row_dims, a.col_dims);
}

#[test]
fn opaque_factorizations_solve_invert_and_measure() {
    let a = square(vec![m(), kg()], vec![s(), s()], &[2.0, 0.0, 0.0, 4.0]);
    let b = square(vec![m(), kg()], vec![one()], &[2.0, 8.0]);
    let f = a.lu_opaque();
    let x = f.solve(&b).unwrap();
    assert!(close(&x.nalgebra().data, &[1.0, 2.0]));
    assert_eq!(x.row_dims, vec![s(), s()]);
    let inv = f.try_inverse().unwrap();
    assert_eq!(inv.row_dims, vec![s(), s()]);
    assert_eq!(inv.col_dims, vec![m(), kg()]);
    let d = f.determinant();
    assert!((d.value - 8.0).abs() < 1e-9);
    assert_eq!(d.unit, dim(1, 1, -2));
    assert_eq!(f.nalgebra().data, a.nalgebra().data);

    let g = a.full_piv_lu_opaque();
    let y = g.solve(&b).unwrap();
    assert!(close(&y.nalgebra().data, &[1.0, 2.0]));
    assert!((g.determinant().value - 8.0).abs() < 1e-9);
    assert!(g.try_inverse().is_some());
    assert_eq!(g.into_nalgebra().data, a.nalgebra().data);

    let singular = square(vec![m(), m()], vec![s(), s()], &[1.0, 2.0, 2.0, 4.0]);
    assert!(singular.lu_opaque().try_inverse().is_none());
    assert!(singular.full_piv_lu_opaque().solve(&square(vec![m(), m()], vec![one()], &[1.0, 1.0])).is_none());
}

#[test]
fn mixed_eigenvalues_carry_the_diagonal_unit() {
    let a = square(vec![m(), kg()], vec![s(), kg().div(&m()).mul(&s())], &[3.0, 0.0, 0.0, 5.0]);
    assert_eq!(a.entry_unit(0, 0), a.entry_unit(1, 1));
    let ev = a.eigenvalues().unwrap();
    assert_eq!(ev.unit, m().div(&s()));
    let mut vals = ev.inner.data.clone();
    vals.sort_by(|x, y| x.partial_cmp(y).unwrap());
    assert!(close(&vals, &[3.0, 5.0]));
    let cev = a.complex_eigenvalues().unwrap();
    assert_eq!(cev.unit, m().div(&s()));
    assert_eq!(cev.inner.nrows, 2);
    let mut re: Vec<f64> = cev.inner.data.iter().map(|c| c.re).collect();
    re.sort_by(|x, y| x.partial_cmp(y).unwrap());
    assert!(close(&re, &[3.0, 5.0]));
    assert!(cev.inner.data.iter().all(|c| c.im.abs() < 1e-9));
}

#[test]
fn rotation_has_complex_eigenvalues() {
    let r = square(vec![m(), m()], vec![m(), m()], &[0.0, -1.0, 1.0, 0.0]);
    let cev = r.complex_eigenvalues().unwrap();
    let mut im: Vec<f64> = cev.inner.data.iter().map(|c| c.im).collect();
    im.sort_by(|x, y| x.partial_cmp(y).unwrap());
    assert!(close(&im, &[-1.0, 1.0]));
}
