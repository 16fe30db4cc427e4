use whippyalgebra::dims::{
    collapse_uniform, copy_list, cross_mul, drop, elem_at, gauge_reproduces, is_metric_shape,
    is_uniform, map_units, pivot_dims, product, repeat, sliced, take, uniform_diag, zip_div, zip_mul,
    UnitMap,
};
use whippyalgebra::linalg::determinant_unit;
use whippyalgebra::uniform::unit_pow;
use whippyalgebra::unit::Unit;

fn dim(mass: i16, length: i16, time: i16) -> Unit {
    Unit::from_exponents([0, 0, 0, 0, mass, length, time, 0, 0, 0, 0, 0])
}

fn metre() -> Unit {
    dim(0, 1, 0)
}

fn second() -> Unit {
    dim(0, 0, 1)
}

fn tonne() -> Unit {
    // a thousand (2^3 · 5^3) of the base mass unit
    Unit::from_exponents([3, 0, 3, 0, 1, 0, 0, 0, 0, 0, 0, 0])
}

#[test]
fn unit_exponents_roundtrip() {
    let e = [1, -2, 3, 0, 4, -5, 6, 0, 1, 0, -1, 2];
    let u = Unit::from_exponents(e);
    assert_eq!(u.exponents(), e);
    assert_eq!(u.p2, 1);
    assert_eq!(u.length, -5);
    assert_eq!(u.angle, 2);
}

#[test]
fn unit_mul_adds_exponents() {
    let v = metre().div(&second());
    assert_eq!(v, dim(0, 1, -1));
    let a = v.div(&second());
    assert_eq!(a, dim(0, 1, -2));
    let f = tonne().mul(&a);
    assert_eq!(f.exponents(), [3, 0, 3, 0, 1, 1, -2, 0, 0, 0, 0, 0]);
}

#[test]
fn unit_inv_and_dimensionless() {
    let one = Unit::dimensionless();
    assert_eq!(one.exponents(), [0; 12]);
    assert_eq!(metre().inv(), dim(0, -1, 0));
    assert_eq!(metre().mul(&metre().inv()), one);
    assert_eq!(metre().div(&metre()), one);
    assert!(one.is_operable());
}

#[test]
fn unit_group_laws_on_values() {
    let a = tonne();
    let b = dim(2, -3, 1);
    let c = second();
    assert_eq!(a.mul(&b), b.mul(&a));
    assert_eq!(a.mul(&b).mul(&c), a.mul(&b.mul(&c)));
    assert_eq!(a.mul(&Unit::dimensionless()), a);
    assert_eq!(a.div(&b), a.mul(&b.inv()));
    assert_eq!(a.inv().inv(), a);
}

#[test]
fn unit_eq_and_same_dimension() {
    let base_mass = dim(1, 0, 0);
    assert!(tonne().same_dimension(&base_mass));
    assert!(!tonne().unit_eq(&base_mass));
    assert!(base_mass.unit_eq(&dim(1, 0, 0)));
    assert!(!metre().same_dimension(&second()));
}

#[test]
fn unit_operable_range() {
    assert!(dim(200, -200, 0).is_operable());
    assert!(!dim(201, 0, 0).is_operable());
    assert!(!dim(0, -201, 0).is_operable());
}

#[test]
fn unit_pow_multiplies_exponents() {
    assert_eq!(unit_pow(&dim(1, -2, 3), 3), dim(3, -6, 9));
    assert_eq!(unit_pow(&metre(), 0), Unit::dimensionless());
}

#[test]
fn unit_map_apply() {
    let v = dim(0, 1, -1);
    assert_eq!(UnitMap::Reciprocal.apply(&v), dim(0, -1, 1));
    assert_eq!(UnitMap::MulBy(second()).apply(&v), metre());
    assert_eq!(UnitMap::DivBy(metre()).apply(&v), second().inv());
    assert_eq!(UnitMap::ToDimensionless.apply(&v), Unit::dimensionless());
}

#[test]
fn dims_concat_and_slices() {
    let a = vec![metre(), second()];
    let b = vec![tonne()];
    let c = whippyalgebra::dims::concat(&a, &b);
    assert_eq!(c, vec![metre(), second(), tonne()]);
    assert_eq!(take(&c, 2), a);
    assert_eq!(drop(&c, 2), b);
    assert_eq!(sliced(&c, 1, 2), vec![second(), tonne()]);
    assert_eq!(copy_list(&c), c);
    assert_eq!(elem_at(&c, 1), second());
    assert_eq!(whippyalgebra::dims::concat(&take(&c, 1), &drop(&c, 1)), c);
}

#[test]
fn dims_map_and_zip() {
    let l = vec![metre(), second()];
    assert_eq!(map_units(&UnitMap::Reciprocal, &l), vec![metre().inv(), second().inv()]);
    assert_eq!(zip_div(&l, &vec![second(), second()]), vec![dim(0, 1, -1), Unit::dimensionless()]);
    assert_eq!(zip_mul(&l, &vec![second(), metre()]), vec![dim(0, 1, 1), dim(0, 1, 1)]);
}

#[test]
fn dims_repeat_and_pivot() {
    assert_eq!(repeat(&metre(), 3), vec![metre(), metre(), metre()]);
    assert!(repeat(&metre(), 0).is_empty());
    let p = pivot_dims(&vec![metre(), metre(), second()], &vec![second(), tonne()]);
    assert_eq!(p, vec![Unit::dimensionless(), Unit::dimensionless()]);
}

#[test]
fn dims_uniformity() {
    assert!(is_uniform(&vec![]));
    assert!(is_uniform(&vec![metre()]));
    assert!(is_uniform(&vec![metre(), metre()]));
    assert!(!is_uniform(&vec![metre(), second()]));
    assert_eq!(collapse_uniform(&vec![metre(), metre()]), Some(metre()));
    assert_eq!(collapse_uniform(&vec![metre(), second()]), None);
    assert_eq!(collapse_uniform(&vec![]), None);
    assert!(gauge_reproduces(&metre(), &metre()));
    assert!(!gauge_reproduces(&metre(), &second()));
}

#[test]
fn dims_uniform_diagonal() {
    // rows [m, s], cols [s, s/m · s]: diagonal units m/s and s/(s²/m) = m/s
    let rows = vec![metre(), second()];
    let cols = vec![second(), dim(0, -1, 2)];
    assert_eq!(uniform_diag(&rows, &cols), Some(dim(0, 1, -1)));
    assert_eq!(uniform_diag(&rows, &vec![second(), second()]), None);
    assert_eq!(uniform_diag(&rows, &vec![second()]), None);
    assert_eq!(uniform_diag(&vec![], &vec![]), None);
}

#[test]
fn dims_metric_shape() {
    let rows = vec![metre(), second()];
    assert!(is_metric_shape(&rows, &vec![metre().inv(), second().inv()]));
    assert!(!is_metric_shape(&rows, &vec![metre(), second()]));
    assert!(!is_metric_shape(&rows, &vec![metre().inv()]));
}

#[test]
fn dims_cross_and_product() {
    let a = vec![metre(), second()];
    let b = vec![tonne(), second()];
    let c = cross_mul(&a, &b);
    assert_eq!(c.len(), 4);
    assert_eq!(c[0], metre().mul(&tonne()));
    assert_eq!(c[1], dim(0, 1, 1));
    assert_eq!(c[2], second().mul(&tonne()));
    assert_eq!(c[3], dim(0, 0, 2));
    assert_eq!(product(&vec![]), Unit::dimensionless());
    assert_eq!(product(&vec![metre(), second(), metre()]), dim(0, 2, 1));
}

#[test]
fn determinant_unit_is_row_product_over_column_product() {
    let rows = vec![metre(), second()];
    let cols = vec![second(), second()];
    assert_eq!(determinant_unit(&rows, &cols), dim(0, 1, -1));
    assert_eq!(determinant_unit(&vec![], &vec![]), Unit::dimensionless());
}
