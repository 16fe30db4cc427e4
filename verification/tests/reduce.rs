use whippyalgebra::matrix::{MixedUnitMatrix, Reduced};
use whippyalgebra::quantity::Quantity;
use whippyalgebra::raw::RawMatrix;
use whippyalgebra::uniform::UniformUnitMatrix;
use whippyalgebra::uniform_reduce::radian;
use whippyalgebra::unit::Unit;

fn dim(mass: i16, length: i16, time: i16) -> Unit {
    Unit::from_exponents([0, 0, 0, 0, mass, length, time, 0, 0, 0, 0, 0])
}

fn m() -> Unit {
    dim(0, 1, 0)
}

fn s() -> Unit {
    dim(0, 0, 1)
}

fn one() -> Unit {
    Unit::dimensionless()
}

fn close(a: &[f64], b: &[f64]) -> bool {
    a.len() == b.len() && a.iter().zip(b).all(|(x, y)| (x - y).abs() < 1e-9)
}

fn u22() -> UniformUnitMatrix<f64> {
    UniformUnitMatrix::from_row_slice(2, 2, &[1.0, -2.0, 3.0, 4.0], m())
}

fn col(values: &[f64], unit: Unit) -> UniformUnitMatrix<f64> {
    UniformUnitMatrix::from_column_slice(values.len(), 1, values, unit)
}

#[test]
fn sums_means_products() {
    let a = u22();
    let sum = a.sum();
    assert_eq!(sum.value, 6.0);
    assert_eq!(sum.unit, m());
    assert_eq!(a.mean().value, 1.5);
    let p = a.product();
    assert_eq!(p.value, -24.0);
    assert_eq!(p.unit, dim(0, 4, 0));
    let d = a.dot(&u22());
    assert_eq!(d.value, 30.0);
    assert_eq!(d.unit, m().mul(&m()));
}

#[test]
fn variances_square_the_unit() {
    let a = u22();
    let v = a.variance();
    assert!((v.value - 5.25).abs() < 1e-12);
    assert_eq!(v.unit, dim(0, 2, 0));
    let rv = a.row_variance();
    assert_eq!(rv.shape(), (1, 2));
    assert!(close(rv.as_raw_slice(), &[1.0, 9.0]));
    assert_eq!(rv.unit, dim(0, 2, 0));
    let cv = a.column_variance();
    assert_eq!(cv.shape(), (2, 1));
    assert!(close(cv.as_raw_slice(), &[2.25, 0.25]));
}

#[test]
fn norms_and_extrema() {
    let v = col(&[3.0, -4.0], s());
    assert_eq!(v.norm().value, 5.0);
    assert_eq!(v.norm().unit, s());
    assert_eq!(v.magnitude().value, 5.0);
    assert_eq!(v.norm_squared().value, 25.0);
    assert_eq!(v.norm_squared().unit, s().mul(&s()));
    assert_eq!(v.magnitude_squared().value, 25.0);
    assert_eq!(v.lp_norm(1).value, 7.0);
    assert_eq!(v.max().value, 3.0);
    assert_eq!(v.min().value, -4.0);
    assert_eq!(v.amax().value, 4.0);
    assert_eq!(v.amin().value, 3.0);
    assert_eq!(v.amin().unit, s());
}

#[test]
fn vector_geometry() {
    let x = col(&[1.0, 0.0, 0.0], m());
    let y = col(&[0.0, 1.0, 0.0], s());
    let z = x.cross(&y);
    assert_eq!(z.as_raw_slice(), &[0.0, 0.0, 1.0]);
    assert_eq!(z.unit, m().mul(&s()));
    let a = col(&[1.0, 0.0], m());
    let b = col(&[0.0, 1.0], m());
    let ang = a.angle(&b);
    assert!((ang.value - std::f64::consts::FRAC_PI_2).abs() < 1e-12);
    assert_eq!(ang.unit, radian());
    let far = col(&[3.0, 4.0], m());
    assert_eq!(a.metric_distance(&far).value, (4.0f64 + 16.0).sqrt());
    assert_eq!(a.distance(&far).unit, m());
    let half = a.slerp(&b, 0.5);
    assert_eq!(half.unit, one());
    assert!(close(half.as_raw_slice(), &[0.5f64.sqrt(), 0.5f64.sqrt()]));
}

#[test]
fn normalization_is_dimensionless() {
    let v = col(&[3.0, 4.0], m());
    let n = v.normalize();
    assert_eq!(n.unit, one());
    assert!(close(n.as_raw_slice(), &[0.6, 0.8]));
    assert!(v.try_normalize(1.0).is_some());
    assert!(col(&[0.0, 0.0], m()).try_normalize(1e-9).is_none());
}

#[test]
fn add_scalar_keeps_the_unit() {
    let a = u22().add_scalar(Quantity::new(1.0, m()));
    assert_eq!(a.as_raw_slice(), &[2.0, 4.0, -1.0, 5.0]);
    assert_eq!(a.unit, m());
}

#[test]
fn entries_maps_and_builders() {
    let a = u22();
    let items = a.iter();
    assert_eq!(items.len(), 4);
    assert_eq!(items[1].value, 3.0);
    assert_eq!(items[1].unit, m());
    let doubled = a.map(|q: Quantity<f64>| Quantity::new(q.value * 2.0, q.unit));
    assert_eq!(doubled.as_raw_slice(), &[2.0, 6.0, -4.0, 8.0]);
    assert_eq!(doubled.unit, m());
    let t = UniformUnitMatrix::from_row_slice(2, 2, &[1.0, 1.0, 2.0, 2.0], s());
    let speed = a.zip_map(&t, m().div(&s()), |p: Quantity<f64>, q: Quantity<f64>| Quantity::new(p.value / q.value, m().div(&s())));
    assert_eq!(speed.unit, m().div(&s()));
    assert_eq!(speed.as_raw_slice(), &[1.0, 1.5, -2.0, 2.0]);
    let f = UniformUnitMatrix::from_fn(2, 3, s(), |i: usize, j: usize| Quantity::new((10 * i + j) as f64, s()));
    assert_eq!(f.shape(), (2, 3));
    assert_eq!(f.as_raw_slice(), &[0.0, 10.0, 1.0, 11.0, 2.0, 12.0]);
    assert_eq!(f.unit, s());
}

#[test]
fn view_accessors_match_the_copies() {
    let a = MixedUnitMatrix::new(
        RawMatrix::from_row_slice(2, 3, &[1.0, 2.0, 3.0, 4.0, 5.0, 6.0]),
        vec![m(), m()],
        vec![s(), s(), one()],
    );
    assert_eq!(a.block_off(0, 1, 2, 2).nalgebra().data, vec![2.0, 5.0, 3.0, 6.0]);
    assert_eq!(a.block_view(1, 0, 1, 3).nalgebra().data, vec![4.0, 5.0, 6.0]);
    assert_eq!(a.block_view_off(0, 2, 2, 1).col_dims, vec![one()]);
    assert!(matches!(a.block_auto_off(0, 0, 2, 2), Reduced::Uniform(_)));
    assert!(matches!(a.block_view_auto(0, 1, 2, 2), Reduced::Mixed(_)));
    match a.block_view_auto_off(0, 2, 2, 1) {
        Reduced::Uniform(u) => assert_eq!(u.unit, m()),
        Reduced::Mixed(_) => panic!("rows [m, m] over column [1] are uniform"),
    }
    let left = a.block(0, 0, 2, 2);
    let u = left.as_uniform();
    assert_eq!(u.unit, m().div(&s()));
    let back = u.as_mixed(m(), s());
    assert_eq!(back.nalgebra().data, left.nalgebra().data);
    let g = u.gauge_dyn(vec![m(), m()], vec![s(), s()]);
    assert_eq!(g.entry_unit(1, 1), m().div(&s()));
}
