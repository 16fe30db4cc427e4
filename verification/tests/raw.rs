use whippyalgebra::raw::RawMatrix;

fn m23() -> RawMatrix<i64> {
    // [[1, 2, 3],
    //  [4, 5, 6]]
    RawMatrix::from_row_slice(2, 3, &[1, 2, 3, 4, 5, 6])
}

#[test]
fn raw_row_slice_is_stored_by_column() {
    let m = m23();
    assert_eq!((m.nrows, m.ncols), (2, 3));
    assert_eq!(m.data, vec![1, 4, 2, 5, 3, 6]);
    assert_eq!(*m.get(1, 2), 6);
    assert_eq!(*m.get(0, 1), 2);
    let c = RawMatrix::from_column_slice(2, 3, &[1, 4, 2, 5, 3, 6]);
    assert_eq!(c.data, m.data);
}

#[test]
fn raw_transpose_swaps_positions() {
    let t = m23().transpose();
    assert_eq!((t.nrows, t.ncols), (3, 2));
    assert_eq!(t.data, vec![1, 2, 3, 4, 5, 6]);
    let tt = t.transpose();
    assert_eq!((tt.nrows, tt.ncols), (2, 3));
    assert_eq!(tt.data, m23().data);
}

#[test]
fn raw_set_changes_one_entry() {
    let mut m = m23();
    m.set(1, 0, 40);
    assert_eq!(m.data, vec![1, 40, 2, 5, 3, 6]);
}

#[test]
fn raw_block_rows_columns() {
    let m = m23();
    let b = m.block(0, 1, 2, 2);
    assert_eq!((b.nrows, b.ncols), (2, 2));
    assert_eq!(b.data, vec![2, 5, 3, 6]);
    let c = m.column(2);
    assert_eq!((c.nrows, c.ncols), (2, 1));
    assert_eq!(c.data, vec![3, 6]);
    let r = m.row(1);
    assert_eq!((r.nrows, r.ncols), (1, 3));
    assert_eq!(r.data, vec![4, 5, 6]);
    let d = m.diagonal();
    assert_eq!((d.nrows, d.ncols), (2, 1));
    assert_eq!(d.data, vec![1, 5]);
}

#[test]
fn raw_hcat_vcat_then_block_roundtrip() {
    let m = m23();
    let left = m.block(0, 0, 2, 1);
    let right = m.block(0, 1, 2, 2);
    let h = left.hcat(&right);
    assert_eq!((h.nrows, h.ncols), (2, 3));
    assert_eq!(h.data, m.data);
    let top = m.row(0);
    let bottom = m.row(1);
    let v = top.vcat(&bottom);
    assert_eq!((v.nrows, v.ncols), (2, 3));
    assert_eq!(v.data, m.data);
}

#[test]
fn raw_swaps_are_involutions() {
    let mut m = m23();
    m.swap_rows(0, 1);
    assert_eq!(m.data, vec![4, 1, 5, 2, 6, 3]);
    m.swap_rows(0, 1);
    assert_eq!(m.data, m23().data);
    m.swap_columns(0, 2);
    assert_eq!(m.data, vec![3, 6, 2, 5, 1, 4]);
    m.swap_columns(2, 0);
    assert_eq!(m.data, m23().data);
    m.swap_rows(1, 1);
    assert_eq!(m.data, m23().data);
}

#[test]
fn raw_set_block_overwrites_a_region() {
    let mut m = m23();
    let patch = RawMatrix::from_row_slice(1, 2, &[7, 8]);
    m.set_block(1, 1, &patch);
    assert_eq!(m.data, vec![1, 4, 2, 7, 3, 8]);
}

#[test]
fn raw_triangles() {
    let m = RawMatrix::from_row_slice(3, 3, &[1, 2, 3, 4, 5, 6, 7, 8, 9]);
    let u = m.upper_triangle(0);
    assert_eq!(u.data, vec![1, 0, 0, 2, 5, 0, 3, 6, 9]);
    let l = m.lower_triangle(0);
    assert_eq!(l.data, vec![1, 4, 7, 0, 5, 8, 0, 0, 9]);
}

#[test]
fn raw_identity_and_from_diagonal() {
    let i = RawMatrix::identity(3, 0, 1);
    assert_eq!(i.data, vec![1, 0, 0, 0, 1, 0, 0, 0, 1]);
    let d = RawMatrix::from_column_slice(2, 1, &[5, 7]);
    let m = RawMatrix::from_diagonal(&d, 0);
    assert_eq!((m.nrows, m.ncols), (2, 2));
    assert_eq!(m.data, vec![5, 0, 0, 7]);
    assert_eq!(m.diagonal().data, d.data);
}

#[test]
fn raw_copy_is_equal() {
    let m = m23();
    let c = m.copy();
    assert_eq!((c.nrows, c.ncols), (m.nrows, m.ncols));
    assert_eq!(c.data, m.data);
}

#[test]
fn raw_empty_shapes() {
    let e: RawMatrix<i64> = RawMatrix::from_row_slice(0, 3, &[]);
    assert_eq!((e.nrows, e.ncols), (0, 3));
    let t = e.transpose();
    assert_eq!((t.nrows, t.ncols), (3, 0));
    assert!(t.data.is_empty());
}
