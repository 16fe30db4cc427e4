use whippyalgebra::quantity::Quantity;
use whippyalgebra::uniform::{with_unit, UniformUnitMatrix};
use whippyalgebra::unit::Unit;

fn dim(mass: i16, length: i16, time: i16) -> Unit {
    Unit::from_exponents([0, 0, 0, 0, mass, length, time, 0, 0, 0, 0, 0])
}

fn m() -> Unit {
    dim(0, 1, 0)
}

fn s() -> Unit {
    dim(0, 0, 1)
}

fn one() -> Unit {
    Unit::dimensionless()
}

fn close(a: &[f64], b: &[f64]) -> bool {
    a.len() == b.len() && a.iter().zip(b).all(|(x, y)| (x - y).abs() < 1e-9)
}

fn u22() -> UniformUnitMatrix<f64> {
    // [[1, 2], [3, 4]] metres
    UniformUnitMatrix::from_row_slice(2, 2, &[1.0, 2.0, 3.0, 4.0], m())
}

#[test]
fn uniform_constructors_agree() {
    let a = u22();
    assert_eq!(a.shape(), (2, 2));
    assert_eq!(a.nrows(), 2);
    assert_eq!(a.ncols(), 2);
    assert_eq!(a.len(), 4);
    assert!(!a.is_empty());
    assert!(a.is_square());
    assert_eq!(a.as_raw_slice(), &[1.0, 3.0, 2.0, 4.0]);
    let b = UniformUnitMatrix::from_column_slice(2, 2, &[1.0, 3.0, 2.0, 4.0], m());
    assert_eq!(b.as_raw_slice(), a.as_raw_slice());
    let c = UniformUnitMatrix::from_vec(2, 2, vec![1.0, 3.0, 2.0, 4.0], m());
    assert_eq!(c.as_raw_slice(), a.as_raw_slice());
    let d = UniformUnitMatrix::from_iterator(2, 2, vec![1.0, 3.0, 2.0, 4.0, 99.0], m());
    assert_eq!(d.as_raw_slice(), a.as_raw_slice());
    let e = UniformUnitMatrix::from_element(2, 3, Quantity::new(7.0, s()));
    assert_eq!(e.shape(), (2, 3));
    assert_eq!(e.unit, s());
    assert_eq!(e.as_raw_slice(), &[7.0; 6]);
}

#[test]
fn uniform_from_columns_and_rows() {
    let c0 = UniformUnitMatrix::from_column_slice(2, 1, &[1.0, 3.0], m());
    let c1 = UniformUnitMatrix::from_column_slice(2, 1, &[2.0, 4.0], m());
    let a = UniformUnitMatrix::from_columns(&vec![c0, c1]);
    assert_eq!(a.as_raw_slice(), u22().as_raw_slice());
    assert_eq!(a.unit, m());
    let r0 = UniformUnitMatrix::from_row_slice(1, 2, &[1.0, 2.0], m());
    let r1 = UniformUnitMatrix::from_row_slice(1, 2, &[3.0, 4.0], m());
    let b = UniformUnitMatrix::from_rows(&vec![r0, r1]);
    assert_eq!(b.as_raw_slice(), u22().as_raw_slice());
}

#[test]
fn uniform_get_set_swap_transpose() {
    let mut a = u22();
    let q = a.get(1, 0);
    assert_eq!(q.value, 3.0);
    assert_eq!(q.unit, m());
    a.set(1, 0, Quantity::new(30.0, m()));
    assert_eq!(a.get(1, 0).value, 30.0);
    a.swap_rows(0, 1);
    assert_eq!(a.as_raw_slice(), &[30.0, 1.0, 4.0, 2.0]);
    a.swap_rows(0, 1);
    a.swap_columns(0, 1);
    assert_eq!(a.as_raw_slice(), &[2.0, 4.0, 1.0, 30.0]);
    let t = u22().transpose();
    assert_eq!(t.as_raw_slice(), &[1.0, 2.0, 3.0, 4.0]);
    assert_eq!(t.unit, m());
}

#[test]
fn uniform_concatenation() {
    let a = u22();
    let h = a.hcat(&u22());
    assert_eq!(h.shape(), (2, 4));
    assert_eq!(h.as_raw_slice(), &[1.0, 3.0, 2.0, 4.0, 1.0, 3.0, 2.0, 4.0]);
    let v = a.vcat(&u22());
    assert_eq!(v.shape(), (4, 2));
    assert_eq!(v.get(2, 1).value, 2.0);
}

#[test]
fn uniform_gauge_and_mixed_conversions() {
    let g = u22().gauge(vec![m(), m()], vec![one(), one()]);
    assert_eq!(g.entry_unit(1, 1), m());
    let mixed = u22().into_mixed(m().mul(&s()), s());
    assert_eq!(mixed.row_dims, vec![m().mul(&s()); 2]);
    assert_eq!(mixed.col_dims, vec![s(); 2]);
    assert_eq!(mixed.entry_unit(0, 1), m());
    let copy = u22().to_mixed(m(), one());
    assert_eq!(copy.nalgebra().data, u22().as_raw_slice().to_vec());
    let back = copy.into_uniform();
    assert_eq!(back.unit, m());
}

#[test]
fn uniform_arithmetic() {
    let a = u22();
    let b = u22();
    let p = a.mul(&b);
    assert_eq!(p.as_raw_slice(), &[7.0, 15.0, 10.0, 22.0]);
    assert_eq!(p.unit, m().mul(&m()));
    assert_eq!(a.add(&b).as_raw_slice(), &[2.0, 6.0, 4.0, 8.0]);
    assert_eq!(a.sub(&b).as_raw_slice(), &[0.0; 4]);
    assert_eq!(a.neg().as_raw_slice(), &[-1.0, -3.0, -2.0, -4.0]);
    let mut c = u22();
    c.add_assign(&b);
    assert_eq!(c.as_raw_slice(), &[2.0, 6.0, 4.0, 8.0]);
    c.sub_assign(&b);
    assert_eq!(c.as_raw_slice(), a.as_raw_slice());
    let q = a.mul_quantity(Quantity::new(2.0, s()));
    assert_eq!(q.unit, m().mul(&s()));
    assert_eq!(q.as_raw_slice(), &[2.0, 6.0, 4.0, 8.0]);
    let r = a.div_quantity(Quantity::new(2.0, s()));
    assert_eq!(r.unit, m().div(&s()));
    assert_eq!(r.as_raw_slice(), &[0.5, 1.5, 1.0, 2.0]);
    let cm = a.component_mul(&b);
    assert_eq!(cm.unit, m().mul(&m()));
    assert_eq!(cm.as_raw_slice(), &[1.0, 9.0, 4.0, 16.0]);
    let cd = a.component_div(&b);
    assert_eq!(cd.unit, one());
    assert_eq!(cd.as_raw_slice(), &[1.0; 4]);
    let tm = a.tr_mul(&b);
    assert_eq!(tm.as_raw_slice(), &[10.0, 14.0, 14.0, 20.0]);
    assert_eq!(tm.unit, m().mul(&m()));
    assert_eq!(a.ad_mul(&b).as_raw_slice(), tm.as_raw_slice());
    assert_eq!(a.adjoint().as_raw_slice(), a.transpose().as_raw_slice());
}

#[test]
fn uniform_reductions() {
    let a = u22();
    let t = a.trace();
    assert_eq!(t.value, 5.0);
    assert_eq!(t.unit, m());
    let rs = a.row_sum();
    assert_eq!(rs.shape(), (1, 2));
    assert_eq!(rs.as_raw_slice(), &[4.0, 6.0]);
    let cs = a.column_sum();
    assert_eq!(cs.shape(), (2, 1));
    assert_eq!(cs.as_raw_slice(), &[3.0, 7.0]);
    assert_eq!(a.row_mean().as_raw_slice(), &[2.0, 3.0]);
    assert_eq!(a.column_mean().as_raw_slice(), &[1.5, 3.5]);
    assert_eq!(rs.unit, m());
}

#[test]
fn uniform_lerp_inf_sup_scale() {
    let x = UniformUnitMatrix::from_column_slice(2, 1, &[0.0, 10.0], m());
    let y = UniformUnitMatrix::from_column_slice(2, 1, &[4.0, 2.0], m());
    let mid = x.lerp(&y, 0.5);
    assert!(close(mid.as_raw_slice(), &[2.0, 6.0]));
    assert_eq!(mid.unit, m());
    assert_eq!(x.inf(&y).as_raw_slice(), &[0.0, 2.0]);
    assert_eq!(x.sup(&y).as_raw_slice(), &[4.0, 10.0]);
    assert_eq!(x.scale(2.0).as_raw_slice(), &[0.0, 20.0]);
    assert_eq!(x.unscale(2.0).as_raw_slice(), &[0.0, 5.0]);
}

#[test]
fn uniform_identity_triangles_diagonal() {
    let i = UniformUnitMatrix::<f64>::identity(2);
    assert_eq!(i.as_raw_slice(), &[1.0, 0.0, 0.0, 1.0]);
    assert_eq!(i.unit, one());
    let a = u22();
    assert_eq!(a.upper_triangle().as_raw_slice(), &[1.0, 0.0, 2.0, 4.0]);
    assert_eq!(a.lower_triangle().as_raw_slice(), &[1.0, 3.0, 0.0, 4.0]);
    let d = UniformUnitMatrix::from_column_slice(2, 1, &[5.0, 6.0], s());
    let dm = UniformUnitMatrix::from_diagonal(&d);
    assert_eq!(dm.as_raw_slice(), &[5.0, 0.0, 0.0, 6.0]);
    assert_eq!(dm.unit, s());
}

#[test]
fn uniform_inverse_solve_determinant_power() {
    let a = UniformUnitMatrix::from_row_slice(2, 2, &[2.0, 0.0, 0.0, 4.0], m());
    let inv = a.try_inverse().unwrap();
    assert_eq!(inv.unit, m().inv());
    assert!(close(inv.as_raw_slice(), &[0.5, 0.0, 0.0, 0.25]));
    let singular = UniformUnitMatrix::from_row_slice(2, 2, &[1.0, 2.0, 2.0, 4.0], m());
    assert!(singular.try_inverse().is_none());
    let a = UniformUnitMatrix::from_row_slice(2, 2, &[2.0, 0.0, 0.0, 4.0], m());
    let b = UniformUnitMatrix::from_column_slice(2, 1, &[2.0, 8.0], m().mul(&s()));
    let x = a.solve(&b).unwrap();
    assert_eq!(x.unit, s());
    assert!(close(x.as_raw_slice(), &[1.0, 2.0]));
    let l = a.solve_lower_triangular(&b).unwrap();
    assert!(close(l.as_raw_slice(), &[1.0, 2.0]));
    let u = a.solve_upper_triangular(&b).unwrap();
    assert_eq!(u.unit, s());
    let d = u22().determinant();
    assert!((d.value + 2.0).abs() < 1e-9);
    assert_eq!(d.unit, dim(0, 2, 0));
    let p = u22().powi(3);
    assert_eq!(p.unit, dim(0, 3, 0));
    assert!(close(p.as_raw_slice(), &[37.0, 81.0, 54.0, 118.0]));
    let p0 = u22().powi(0);
    assert_eq!(p0.unit, one());
}

#[test]
fn uniform_factorizations() {
    let a = UniformUnitMatrix::from_row_slice(3, 3, &[2.0, 1.0, 1.0, 4.0, 3.0, 3.0, 8.0, 7.0, 9.0], m());
    let b = UniformUnitMatrix::from_column_slice(3, 1, &[4.0, 10.0, 24.0], m().mul(&s()));
    let f = a.lu();
    assert_eq!(f.u.unit, m());
    assert_eq!(f.l.unit, one());
    assert!(close(f.recompose().as_raw_slice(), a.as_raw_slice()));
    let x = f.solve(&b).unwrap();
    assert_eq!(x.unit, s());
    assert!(close(x.as_raw_slice(), &[1.0, 1.0, 1.0]));
    let g = a.full_piv_lu();
    assert_eq!(g.q.unit, one());
    assert!(close(g.recompose().as_raw_slice(), a.as_raw_slice()));
    let y = g.solve(&b).unwrap();
    assert!(close(y.as_raw_slice(), &[1.0, 1.0, 1.0]));
}

#[test]
fn uniform_eigenvalues() {
    let a = UniformUnitMatrix::from_row_slice(2, 2, &[2.0, 0.0, 0.0, 7.0], s());
    let ev = a.eigenvalues().unwrap();
    assert_eq!(ev.unit, s());
    let mut v = ev.as_raw_slice().to_vec();
    v.sort_by(|x, y| x.partial_cmp(y).unwrap());
    assert!(close(&v, &[2.0, 7.0]));
    let c = a.complex_eigenvalues().unwrap();
    assert_eq!(c.unit, s());
    assert_eq!(c.shape(), (2, 1));
}

#[test]
fn with_unit_wraps_options() {
    let none: Option<UniformUnitMatrix<f64>> = with_unit(None, m());
    assert!(none.is_none());
}

#[test]
fn uniform_clone_and_default() {
    let a = UniformUnitMatrix::from_row_slice(2, 2, &[1.0, 2.0, 3.0, 4.0], m());
    let b = a.clone();
    assert_eq!(b.as_raw_slice(), a.as_raw_slice());
    assert_eq!(b.unit, m());
    let d: UniformUnitMatrix<f64> = UniformUnitMatrix::default();
    assert_eq!(d.shape(), (0, 0));
    assert_eq!(d.unit, Unit::dimensionless());
}
