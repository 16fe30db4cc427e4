use whippyalgebra::display::{render_table, unit_labels};
use whippyalgebra::matrix::MixedUnitMatrix;
use whippyalgebra::raw::RawMatrix;
use whippyalgebra::unit::Unit;

fn chars(s: &str) -> Vec<char> {
    s.chars().collect()
}

fn text(v: &[char]) -> String {
    v.iter().collect()
}

fn grid(rows: &[&[&str]]) -> Vec<Vec<Vec<char>>> {
    rows.iter().map(|r| r.iter().map(|c| chars(c)).collect()).collect()
}

fn labels(items: &[&str]) -> Vec<Vec<char>> {
    items.iter().map(|s| chars(s)).collect()
}

fn dim(mass: i16, length: i16, time: i16) -> Unit {
    Unit::from_exponents([0, 0, 0, 0, mass, length, time, 0, 0, 0, 0, 0])
}

#[test]
fn table_aligns_values_right_and_units_left() {
    let cells = grid(&[&["1 m", "20 s"], &["300 m", "4 s"]]);
    let out = render_table(&cells, &labels(&["a", "bb"]), &labels(&["x", "yyyyyyy"]));
    let expected = "      x    yyyyyyy\n a [  1 m     20 s]\nbb [300 m      4 s]";
    assert_eq!(text(&out), expected);
}

#[test]
fn table_without_units_and_wide_values() {
    let cells = grid(&[&["1.5", "2"], &["-10", "0.25"]]);
    let out = render_table(&cells, &labels(&["1", "1"]), &labels(&["1", "1"]));
    let expected = "    1    1  \n1 [1.5     2]\n1 [-10  0.25]";
    assert_eq!(text(&out), expected);
}

#[test]
fn table_mixes_unit_lengths_in_a_column() {
    let cells = grid(&[&["1 km"], &["2 m"], &["3"]]);
    let out = render_table(&cells, &labels(&["m", "m", "1"]), &labels(&["s"]));
    let expected = "    s  \nm [1 km]\nm [2 m ]\n1 [3   ]";
    assert_eq!(text(&out), expected);
}

#[test]
fn table_of_no_rows_is_a_header() {
    let cells: Vec<Vec<Vec<char>>> = Vec::new();
    let out = render_table(&cells, &labels(&[]), &labels(&["ab", "c"]));
    assert_eq!(text(&out), "  ab  c\n");
}

#[test]
fn margin_labels_of_units() {
    let l = unit_labels(&vec![dim(0, 1, 0), dim(0, 0, 1), dim(1, 0, 0)]);
    assert_eq!(l.len(), 3);
    assert_eq!(text(&l[0]), "m");
    assert_eq!(text(&l[1]), "s");
    assert_eq!(text(&l[2]), "kg");
    assert!(unit_labels(&vec![]).is_empty());
}

#[test]
fn margin_label_of_the_dimensionless_unit_is_whippyunits_empty_tuple() {
    let l = unit_labels(&vec![Unit::dimensionless()]);
    assert_eq!(text(&l[0]), "()");
}

#[test]
fn matrix_layout_uses_its_unit_labels() {
    let rows = vec![dim(0, 1, 0), dim(0, 0, 1)];
    let cols = vec![dim(0, 0, 1), dim(0, 1, 0)];
    let a = MixedUnitMatrix::new(RawMatrix::from_row_slice(2, 2, &[1.0, 2.0, 3.0, 4.0]), rows.clone(), cols.clone());
    let cells = grid(&[&["1 m/s", "2"], &["3", "4 s/m"]]);
    let out = a.fmt(&cells).unwrap();
    let expected = render_table(&cells, &unit_labels(&rows), &unit_labels(&cols));
    assert_eq!(out, expected);
    assert_eq!(text(&out), "     s      m  \nm [1 m/s  2    ]\ns [3      4 s/m]");
}
