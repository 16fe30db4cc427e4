use whippyalgebra::matrix::{MixedUnitMatrix, Reduced};
use whippyalgebra::quantity::Quantity;
use whippyalgebra::raw::RawMatrix;
use whippyalgebra::unit::Unit;

fn dim(mass: i16, length: i16, time: i16, temperature: i16) -> Unit {
    Unit::from_exponents([0, 0, 0, 0, mass, length, time, 0, temperature, 0, 0, 0])
}

fn m() -> Unit {
    dim(0, 1, 0, 0)
}

fn s() -> Unit {
    dim(0, 0, 1, 0)
}

fn k() -> Unit {
    dim(0, 0, 0, 1)
}

fn one() -> Unit {
    Unit::dimensionless()
}

/// Rows [m, m, s], columns [s, s, K], entries 1..9 row by row.
fn sample() -> MixedUnitMatrix<f64> {
    let inner = RawMatrix::from_row_slice(3, 3, &[1.0, 2.0, 3.0, 4.0, 5.0, 6.0, 7.0, 8.0, 9.0]);
    MixedUnitMatrix::new(inner, vec![m(), m(), s()], vec![s(), s(), k()])
}

fn entries(a: &MixedUnitMatrix<f64>) -> Vec<f64> {
    a.nalgebra().data.clone()
}

#[test]
fn mixed_entry_units_are_row_over_column() {
    let a = sample();
    assert_eq!(a.shape(), (3, 3));
    assert_eq!(a.nrows(), 3);
    assert_eq!(a.ncols(), 3);
    assert_eq!(a.len(), 9);
    assert!(!a.is_empty());
    assert!(a.is_square());
    assert_eq!(a.entry_unit(0, 0), m().div(&s()));
    assert_eq!(a.entry_unit(0, 2), m().div(&k()));
    assert_eq!(a.entry_unit(2, 0), one());
    assert_eq!(a.entry_unit(2, 2), s().div(&k()));
    let q = a.get(1, 2);
    assert_eq!(q.value, 6.0);
    assert_eq!(q.unit, m().div(&k()));
}

#[test]
fn mixed_set_and_with_replace_one_entry() {
    let mut a = sample();
    a.set(2, 1, Quantity::new(80.0, one()));
    assert_eq!(a.get(2, 1).value, 80.0);
    assert_eq!(a.get(2, 0).value, 7.0);
    let b = sample().with(0, 0, Quantity::new(-1.0, m().div(&s())));
    assert_eq!(b.get(0, 0).value, -1.0);
    assert_eq!(b.get(0, 1).value, 2.0);
}

#[test]
fn mixed_from_nalgebra_checks_nothing_but_from_dyn_copies() {
    let raw = RawMatrix::from_row_slice(1, 2, &[1.0, 2.0]);
    let a = MixedUnitMatrix::from_dyn(&raw, vec![m()], vec![s(), k()]);
    assert_eq!(entries(&a), raw.data);
    let b = MixedUnitMatrix::from_nalgebra(raw, vec![m()], vec![s(), k()]);
    assert_eq!(b.into_nalgebra().data, vec![1.0, 2.0]);
}

#[test]
fn mixed_row_column_diagonal_keep_units() {
    let a = sample();
    let c = a.column(2);
    assert_eq!(c.shape(), (3, 1));
    assert_eq!(entries(&c), vec![3.0, 6.0, 9.0]);
    assert_eq!(c.col_dims, vec![k()]);
    let r = a.row(2);
    assert_eq!(r.shape(), (1, 3));
    assert_eq!(entries(&r), vec![7.0, 8.0, 9.0]);
    assert_eq!(r.row_dims, vec![s()]);
    let d = a.diagonal();
    assert_eq!(entries(&d), vec![1.0, 5.0, 9.0]);
    assert_eq!(d.row_dims, vec![m().div(&s()), m().div(&s()), s().div(&k())]);
    assert_eq!(d.col_dims, vec![one()]);
    assert_eq!(d.entry_unit(2, 0), a.entry_unit(2, 2));
}

#[test]
fn mixed_transpose_reciprocates_units_and_twice_is_identity() {
    let a = sample();
    let t = a.transpose();
    assert_eq!(t.row_dims, vec![s().inv(), s().inv(), k().inv()]);
    assert_eq!(t.col_dims, vec![m().inv(), m().inv(), s().inv()]);
    assert_eq!(t.get(0, 2).value, 7.0);
    assert_eq!(t.entry_unit(0, 2), a.entry_unit(2, 0));
    assert_eq!(t.entry_unit(2, 1), a.entry_unit(1, 2));
    let tt = t.transpose();
    assert_eq!(tt.row_dims, a.row_dims);
    assert_eq!(tt.col_dims, a.col_dims);
    assert_eq!(entries(&tt), entries(&a));
}

#[test]
fn mixed_block_then_concatenate_restores_the_matrix() {
    let a = sample();
    let tl = a.block(0, 0, 2, 2);
    let tr = a.block(0, 2, 2, 1);
    let bl = a.block(2, 0, 1, 2);
    let br = a.block(2, 2, 1, 1);
    assert_eq!(tl.row_dims, vec![m(), m()]);
    assert_eq!(tr.col_dims, vec![k()]);
    assert_eq!(entries(&tl), vec![1.0, 4.0, 2.0, 5.0]);
    let top = tl.hcat(&tr);
    let bottom = bl.hcat(&br);
    let whole = top.vcat(&bottom);
    assert_eq!(whole.row_dims, a.row_dims);
    assert_eq!(whole.col_dims, a.col_dims);
    assert_eq!(entries(&whole), entries(&a));
}

#[test]
fn mixed_uniform_block_edit_roundtrip() {
    // The [2, 1] × [2, 1] partition: the top-left block is uniform (m/s);
    // doubling it and reassembling changes exactly those four entries.
    let a = sample();
    let edited_tl = match a.block_auto(0, 0, 2, 2) {
        Reduced::Uniform(mut u) => {
            assert_eq!(u.unit, m().div(&s()));
            for x in u.inner.data.iter_mut() {
                *x *= 2.0;
            }
            u.gauge(vec![m(), m()], vec![s(), s()])
        }
        Reduced::Mixed(_) => panic!("the top-left block is uniform"),
    };
    match a.block_auto(0, 1, 3, 2) {
        Reduced::Mixed(b) => assert_eq!(b.col_dims, vec![s(), k()]),
        Reduced::Uniform(_) => panic!("columns [s, K] are mixed"),
    }
    let rebuilt = a.with_block(0, 0, &edited_tl);
    let expected = vec![2.0, 8.0, 7.0, 4.0, 10.0, 8.0, 3.0, 6.0, 9.0];
    assert_eq!(entries(&rebuilt), expected);

    // The same edit through set_block on a copy.
    let mut b = sample();
    b.set_block(0, 0, &edited_tl);
    assert_eq!(entries(&b), expected);
}

#[test]
fn mixed_regauging_keeps_every_entry_unit() {
    let a = sample();
    let before: Vec<Unit> = (0..3).flat_map(|i| (0..3).map(move |j| (i, j))).map(|(i, j)| a.entry_unit(i, j)).collect();
    let c = sample().canonical_at_col(2);
    assert_eq!(c.col_dims[2], one());
    assert_eq!(c.row_dims, vec![m().div(&k()), m().div(&k()), s().div(&k())]);
    let r = sample().canonical_at_row(0);
    assert_eq!(r.row_dims[0], one());
    let g = sample().with_gauge_at_row(dim(0, 3, 0, 0), 2);
    assert_eq!(g.row_dims[2], dim(0, 3, 0, 0));
    let h = sample().with_gauge_at_column(dim(1, 0, 0, 0), 0);
    assert_eq!(h.col_dims[0], dim(1, 0, 0, 0));
    for x in [&c, &r, &g, &h] {
        let after: Vec<Unit> = (0..3).flat_map(|i| (0..3).map(move |j| (i, j))).map(|(i, j)| x.entry_unit(i, j)).collect();
        assert_eq!(after, before);
        assert_eq!(entries(x), entries(&a));
    }
}

#[test]
fn mixed_uniform_conversion() {
    let raw = RawMatrix::from_row_slice(2, 2, &[1.0, 2.0, 3.0, 4.0]);
    let a = MixedUnitMatrix::new(raw, vec![m(), m()], vec![s(), s()]);
    let u = a.to_uniform();
    assert_eq!(u.unit, m().div(&s()));
    assert_eq!(u.inner.data, vec![1.0, 3.0, 2.0, 4.0]);
    let v = a.into_uniform();
    assert_eq!(v.unit, m().div(&s()));
}

#[test]
fn mixed_identity_and_triangles() {
    let i = MixedUnitMatrix::<f64>::identity(vec![m(), s()]);
    assert_eq!(entries(&i), vec![1.0, 0.0, 0.0, 1.0]);
    assert_eq!(i.entry_unit(0, 0), one());
    assert_eq!(i.entry_unit(0, 1), m().div(&s()));
    let a = sample();
    assert_eq!(entries(&a.upper_triangle()), vec![1.0, 0.0, 0.0, 2.0, 5.0, 0.0, 3.0, 6.0, 9.0]);
    assert_eq!(entries(&a.lower_triangle()), vec![1.0, 4.0, 7.0, 0.0, 5.0, 8.0, 0.0, 0.0, 9.0]);
    let d = a.diagonal();
    let back = MixedUnitMatrix::from_diagonal(&d);
    assert_eq!(entries(&back), vec![1.0, 0.0, 0.0, 0.0, 5.0, 0.0, 0.0, 0.0, 9.0]);
    assert_eq!(back.entry_unit(2, 2), a.entry_unit(2, 2));
}

#[test]
fn mixed_product_units_and_values() {
    // A: ⟨[m, s], [s, K]⟩, B: ⟨[s, K], [1]⟩, A·B: ⟨[m, s], [1]⟩
    let a = MixedUnitMatrix::new(RawMatrix::from_row_slice(2, 2, &[1.0, 2.0, 3.0, 4.0]), vec![m(), s()], vec![s(), k()]);
    let b = MixedUnitMatrix::new(RawMatrix::from_row_slice(2, 1, &[5.0, 6.0]), vec![s(), k()], vec![one()]);
    let p = a.mul(&b);
    assert_eq!(p.shape(), (2, 1));
    assert_eq!(entries(&p), vec![17.0, 39.0]);
    assert_eq!(p.row_dims, vec![m(), s()]);
    assert_eq!(p.col_dims, vec![one()]);
    assert_eq!(p.entry_unit(0, 0), a.entry_unit(0, 1).mul(&b.entry_unit(1, 0)));
}

#[test]
fn mixed_sum_difference_negation() {
    let a = sample();
    let b = sample();
    assert_eq!(entries(&a.add(&b)), vec![2.0, 8.0, 14.0, 4.0, 10.0, 16.0, 6.0, 12.0, 18.0]);
    assert_eq!(entries(&a.sub(&b)), vec![0.0; 9]);
    assert_eq!(entries(&a.neg())[0], -1.0);
    let mut c = sample();
    c.add_assign(&b);
    assert_eq!(entries(&c)[8], 18.0);
    c.sub_assign(&b);
    c.sub_assign(&b);
    assert_eq!(entries(&c), vec![0.0; 9]);
    c.add_assign(&b);
    assert_eq!(entries(&c), entries(&a));
}

#[test]
fn mixed_scalar_products_move_row_units() {
    let a = sample();
    let p = a.mul_quantity(Quantity::new(2.0, s()));
    assert_eq!(p.row_dims, vec![m().mul(&s()), m().mul(&s()), s().mul(&s())]);
    assert_eq!(p.col_dims, a.col_dims);
    assert_eq!(entries(&p)[3], 4.0);
    assert_eq!(p.entry_unit(0, 0), a.entry_unit(0, 0).mul(&s()));
    let q = a.div_quantity(Quantity::new(2.0, m()));
    assert_eq!(q.row_dims, vec![one(), one(), s().div(&m())]);
    assert_eq!(entries(&q)[8], 4.5);
    let r = a.scale(3.0);
    assert_eq!(entries(&r)[1], 12.0);
    assert_eq!(r.row_dims, a.row_dims);
    let u = a.unscale(2.0);
    assert_eq!(entries(&u)[1], 2.0);
    let mut v = sample();
    v.scale_mut(2.0);
    assert_eq!(entries(&v)[1], 8.0);
    v.unscale_mut(4.0);
    assert_eq!(entries(&v)[1], 2.0);
    v.scale_mut(2.0);
    assert_eq!(entries(&v), entries(&a));
}

#[test]
fn mixed_adjoint_is_transpose_for_reals() {
    let a = sample();
    let h = a.adjoint();
    let t = a.transpose();
    assert_eq!(entries(&h), entries(&t));
    assert_eq!(h.row_dims, t.row_dims);
    assert_eq!(h.col_dims, t.col_dims);
}

#[test]
fn mixed_componentwise_products() {
    let a = sample();
    let b = sample();
    let p = a.component_mul(&b);
    assert_eq!(entries(&p)[2], 49.0);
    assert_eq!(p.row_dims, vec![m().mul(&m()), m().mul(&m()), s().mul(&s())]);
    assert_eq!(p.entry_unit(0, 2), a.entry_unit(0, 2).mul(&a.entry_unit(0, 2)));
    let q = a.component_div(&b);
    assert_eq!(entries(&q), vec![1.0; 9]);
    assert_eq!(q.entry_unit(1, 2), one());
}

#[test]
fn mixed_kronecker_units_multiply() {
    let a = MixedUnitMatrix::new(RawMatrix::from_row_slice(1, 2, &[1.0, 2.0]), vec![m()], vec![s(), k()]);
    let b = MixedUnitMatrix::new(RawMatrix::from_row_slice(2, 1, &[3.0, 4.0]), vec![s(), k()], vec![one()]);
    let c = a.kronecker(&b);
    assert_eq!(c.shape(), (2, 2));
    assert_eq!(entries(&c), vec![3.0, 4.0, 6.0, 8.0]);
    assert_eq!(c.row_dims, vec![m().mul(&s()), m().mul(&k())]);
    assert_eq!(c.col_dims, vec![s(), k()]);
}

#[test]
fn mixed_transposed_products() {
    // A: ⟨[m, s], [K]⟩; Aᵀ·B needs B's rows to be [1/m, 1/s].
    let a = MixedUnitMatrix::new(RawMatrix::from_row_slice(2, 1, &[1.0, 2.0]), vec![m(), s()], vec![k()]);
    let b = MixedUnitMatrix::new(RawMatrix::from_row_slice(2, 1, &[3.0, 4.0]), vec![m().inv(), s().inv()], vec![one()]);
    let p = a.tr_mul(&b);
    assert_eq!(entries(&p), vec![11.0]);
    assert_eq!(p.row_dims, vec![k().inv()]);
    assert_eq!(p.col_dims, vec![one()]);
    let q = a.ad_mul(&b);
    assert_eq!(entries(&q), vec![11.0]);
}

#[test]
fn mixed_trace_and_pow() {
    let e = MixedUnitMatrix::new(RawMatrix::from_row_slice(2, 2, &[1.0, 2.0, 3.0, 4.0]), vec![m(), s()], vec![m(), s()]);
    let tr = e.trace();
    assert_eq!(tr.value, 5.0);
    assert_eq!(tr.unit, one());
    let sq = e.pow(2);
    assert_eq!(entries(&sq), vec![7.0, 15.0, 10.0, 22.0]);
    assert_eq!(sq.row_dims, e.row_dims);
}

#[test]
fn mixed_entry_units_are_homogeneous() {
    let a = sample();
    for i in 0..3 {
        for k in 0..3 {
            for j in 0..3 {
                for l in 0..3 {
                    let lhs = a.entry_unit(i, j).mul(&a.entry_unit(k, l));
                    let rhs = a.entry_unit(i, l).mul(&a.entry_unit(k, j));
                    assert_eq!(lhs, rhs);
                }
            }
        }
    }
}

#[test]
fn mixed_clone_and_default() {
    let a = sample();
    let b = a.clone();
    assert_eq!(entries(&b), entries(&a));
    assert_eq!(b.row_dims, a.row_dims);
    assert_eq!(b.col_dims, a.col_dims);
    let d: MixedUnitMatrix<f64> = MixedUnitMatrix::default();
    assert_eq!(d.shape(), (0, 0));
    assert!(d.row_dims.is_empty());
    assert!(d.col_dims.is_empty());
}

#[test]
fn mixed_triangles_split_the_matrix() {
    let a = sample();
    let u = entries(&a.upper_triangle());
    let l = entries(&a.lower_triangle());
    let m = entries(&a);
    for j in 0..3 {
        for i in 0..3 {
            let k = i + 3 * j;
            let expected = if i == j { 2.0 * m[k] } else { m[k] };
            assert_eq!(u[k] + l[k], expected);
        }
    }
}
