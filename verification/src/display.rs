//! Text layout of a mixed-unit matrix.
//!
//! Every entry is rendered as `value unit` (or just `value` when
//! dimensionless) by the caller; this module lays the cells out in a grid:
//! the unit labels of the columns centered across the top, the unit label of
//! each row right-justified down the left, values right-aligned and units
//! left-aligned within each column. Widths are counted in characters.

use vstd::prelude::*;
use crate::matrix::MixedUnitMatrix;
use crate::dims::list_operable;
use crate::unit::Unit;

verus! {

/// The label whippyunits prints for a unit with exponents `exps`.
pub uninterp spec fn unit_label_text(exps: Seq<int>) -> Seq<char>;

/// whippyunits' `pretty_print_unit_label` for the unit `u` (its eight
/// dimension exponents and four scale exponents), as characters. The label is
/// a function of the exponents alone. Exponents are kept within `±200`:
/// whippyunits works on them in `i16` arithmetic (composite extraction
/// subtracts composite exponents, scale matching multiplies them), which a
/// larger exponent could overflow.
#[verifier::external_body]
fn wu_unit_label(u: &Unit) -> (r: Vec<char>)
    requires
        u.operable(),
    ensures
        r@ == unit_label_text(u.exps()),
{
    let d = whippyunits_core::dimension_exponents::DynDimensionExponents([
        u.mass, u.length, u.time, u.current, u.temperature, u.amount, u.luminosity, u.angle,
    ]);
    let s = whippyunits_core::scale_exponents::ScaleExponents([u.p2, u.p3, u.p5, u.pi]);
    whippyunits::print::prettyprint::pretty_print_unit_label(d, s).chars().collect()
}

/// The label shown in a matrix margin: the unit's label, or `1` for a unit
/// whose label is empty.
pub open spec fn margin_label(exps: Seq<int>) -> Seq<char> {
    if unit_label_text(exps).len() == 0 {
        seq!['1']
    } else {
        unit_label_text(exps)
    }
}

/// The margin labels of a list of units, in order.
pub fn unit_labels(dims: &Vec<Unit>) -> (r: Vec<Vec<char>>)
    requires
        list_operable(dims@),
    ensures
        r.len() == dims.len(),
        forall|i: int| 0 <= i < dims.len() ==> (#[trigger] r@[i])@ == margin_label(dims@[i].exps()),
{
    let mut out: Vec<Vec<char>> = Vec::new();
    let mut i: usize = 0;
    while i < dims.len()
        invariant
            i <= dims.len(),
            list_operable(dims@),
            out.len() == i,
            forall|k: int| 0 <= k < i ==> (#[trigger] out@[k])@ == margin_label(dims@[k].exps()),
        decreases dims.len() - i,
    {
        let label = wu_unit_label(&dims[i]);
        if label.len() == 0 {
            let mut one: Vec<char> = Vec::new();
            one.push('1');
            assert(one@ =~= seq!['1']);
            out.push(one);
        } else {
            out.push(label);
        }
        i += 1;
    }
    out
}

/// `n` spaces.
pub open spec fn spaces(n: int) -> Seq<char> {
    Seq::new(if n < 0 { 0 } else { n as nat }, |i: int| ' ')
}

/// The larger of two integers.
pub open spec fn max_int(a: int, b: int) -> int {
    if a >= b { a } else { b }
}

/// Position of the first space of `s`, or `s.len()` when there is none.
pub open spec fn first_space(s: Seq<char>) -> int
    decreases s.len(),
{
    if s.len() == 0 {
        0
    } else if s[0] == ' ' {
        0
    } else {
        1 + first_space(s.subrange(1, s.len() as int))
    }
}

/// The numeric part of a rendered cell: everything before its first space.
pub open spec fn value_part(s: Seq<char>) -> Seq<char> {
    s.subrange(0, first_space(s))
}

/// The unit part of a rendered cell: everything after its first space
/// (empty when it has none).
pub open spec fn unit_part(s: Seq<char>) -> Seq<char> {
    if first_space(s) < s.len() {
        s.subrange(first_space(s) + 1, s.len() as int)
    } else {
        seq![]
    }
}

/// `s` right-aligned in a field of `w` characters.
pub open spec fn pad_left(s: Seq<char>, w: int) -> Seq<char> {
    spaces(w - s.len()) + s
}

/// `s` left-aligned in a field of `w` characters.
pub open spec fn pad_right(s: Seq<char>, w: int) -> Seq<char> {
    s + spaces(w - s.len())
}

/// `s` centered in a field of `w` characters (the extra space, if any, on
/// the right).
pub open spec fn center(s: Seq<char>, w: int) -> Seq<char> {
    if s.len() >= w {
        s
    } else {
        spaces((w - s.len()) / 2) + s + spaces((w - s.len()) - (w - s.len()) / 2)
    }
}

/// The rendered cells, indexed by row then column.
pub open spec fn cell_of(cells: Seq<Vec<Vec<char>>>, r: int, c: int) -> Seq<char> {
    cells[r]@[c]@
}

/// The widest value part in column `c` among the first `r` rows.
pub open spec fn value_width(cells: Seq<Vec<Vec<char>>>, c: int, r: int) -> int
    decreases r,
{
    if r <= 0 {
        0
    } else {
        max_int(value_width(cells, c, r - 1), value_part(cell_of(cells, r - 1, c)).len() as int)
    }
}

/// The widest unit part in column `c` among the first `r` rows.
pub open spec fn unit_width(cells: Seq<Vec<Vec<char>>>, c: int, r: int) -> int
    decreases r,
{
    if r <= 0 {
        0
    } else {
        max_int(unit_width(cells, c, r - 1), unit_part(cell_of(cells, r - 1, c)).len() as int)
    }
}

/// The width of a column's cells: the value field, then a space and the
/// unit field when any cell of the column has a unit.
pub open spec fn base_width(vw: int, uw: int) -> int {
    vw + if uw > 0 { 1 + uw } else { 0 }
}

/// The width of column `c`'s field: its cells' width, widened to fit its
/// label.
pub open spec fn field_width(cells: Seq<Vec<Vec<char>>>, labels: Seq<Seq<char>>, c: int) -> int {
    max_int(
        base_width(value_width(cells, c, cells.len() as int), unit_width(cells, c, cells.len() as int)),
        labels[c].len() as int,
    )
}

/// A cell laid out in a column whose value field is `vw` wide, unit field
/// `uw` wide and whole field `fw` wide: the value right-aligned, then (when
/// the column has units) a space and the unit left-aligned, the whole
/// right-aligned in the field.
pub open spec fn cell_layout(cell: Seq<char>, vw: int, uw: int, fw: int) -> Seq<char> {
    let base = if uw == 0 {
        pad_left(value_part(cell), vw)
    } else {
        pad_left(value_part(cell), vw) + seq![' '] + pad_right(unit_part(cell), uw)
    };
    pad_left(base, fw)
}

/// Cell `(r, c)` laid out in its column.
pub open spec fn render_cell(cells: Seq<Vec<Vec<char>>>, labels: Seq<Seq<char>>, r: int, c: int) -> Seq<char> {
    cell_layout(
        cell_of(cells, r, c),
        value_width(cells, c, cells.len() as int),
        unit_width(cells, c, cells.len() as int),
        field_width(cells, labels, c),
    )
}

/// The first `k` laid-out cells of row `r`, separated by two spaces.
pub open spec fn row_body(cells: Seq<Vec<Vec<char>>>, labels: Seq<Seq<char>>, r: int, k: int) -> Seq<char>
    decreases k,
{
    if k <= 0 {
        seq![]
    } else {
        row_body(cells, labels, r, k - 1) + (if k - 1 > 0 { spaces(2) } else { seq![] })
            + render_cell(cells, labels, r, k - 1)
    }
}

/// The first `k` column labels, each centered over its field, separated by
/// two spaces.
pub open spec fn header_body(cells: Seq<Vec<Vec<char>>>, labels: Seq<Seq<char>>, k: int) -> Seq<char>
    decreases k,
{
    if k <= 0 {
        seq![]
    } else {
        header_body(cells, labels, k - 1) + (if k - 1 > 0 { spaces(2) } else { seq![] })
            + center(labels[k - 1], field_width(cells, labels, k - 1))
    }
}

/// The widest of the first `k` row labels.
pub open spec fn label_pad(row_labels: Seq<Seq<char>>, k: int) -> int
    decreases k,
{
    if k <= 0 {
        0
    } else {
        max_int(label_pad(row_labels, k - 1), row_labels[k - 1].len() as int)
    }
}

/// Body line `i`: the row label right-justified in the left margin, a space,
/// then the row's cells in brackets.
pub open spec fn body_line(cells: Seq<Vec<Vec<char>>>, row_labels: Seq<Seq<char>>, col_labels: Seq<Seq<char>>, i: int) -> Seq<char> {
    pad_left(row_labels[i], label_pad(row_labels, row_labels.len() as int)) + seq![' ', '[']
        + row_body(cells, col_labels, i, col_labels.len() as int) + seq![']']
}

/// The first `k` body lines, separated by newlines (none after the last row).
pub open spec fn body_lines(cells: Seq<Vec<Vec<char>>>, row_labels: Seq<Seq<char>>, col_labels: Seq<Seq<char>>, k: int) -> Seq<char>
    decreases k,
{
    if k <= 0 {
        seq![]
    } else {
        body_lines(cells, row_labels, col_labels, k - 1) + body_line(cells, row_labels, col_labels, k - 1)
            + (if k < cells.len() { seq!['\n'] } else { seq![] })
    }
}

/// The header line: the left margin, two spaces, the centered column labels.
pub open spec fn header_line(cells: Seq<Vec<Vec<char>>>, row_labels: Seq<Seq<char>>, col_labels: Seq<Seq<char>>) -> Seq<char> {
    spaces(label_pad(row_labels, row_labels.len() as int)) + spaces(2)
        + header_body(cells, col_labels, col_labels.len() as int)
}

/// The whole table: the header line, a newline, then the body lines.
pub open spec fn table(cells: Seq<Vec<Vec<char>>>, row_labels: Seq<Seq<char>>, col_labels: Seq<Seq<char>>) -> Seq<char> {
    header_line(cells, row_labels, col_labels) + seq!['\n'] + body_lines(cells, row_labels, col_labels, cells.len() as int)
}

/// The characters of each line of text in a list.
pub open spec fn views(v: Seq<Vec<char>>) -> Seq<Seq<char>> {
    Seq::new(v.len(), |i: int| v[i]@)
}

/// Appends `n` spaces.
fn push_spaces(out: &mut Vec<char>, n: usize)
    ensures
        final(out)@ == old(out)@ + spaces(n as int),
{
    let ghost start = out@;
    let mut i: usize = 0;
    while i < n
        invariant
            i <= n,
            out@ == start + spaces(i as int),
        decreases n - i,
    {
        out.push(' ');
        i += 1;
        assert(out@ =~= start + spaces(i as int));
    }
}

/// Appends the characters of `s`.
fn push_all(out: &mut Vec<char>, s: &Vec<char>)
    ensures
        final(out)@ == old(out)@ + s@,
{
    let ghost start = out@;
    let mut i: usize = 0;
    while i < s.len()
        invariant
            i <= s.len(),
            out@ == start + s@.subrange(0, i as int),
        decreases s.len() - i,
    {
        out.push(s[i]);
        i += 1;
        assert(out@ =~= start + s@.subrange(0, i as int));
    }
    assert(s@.subrange(0, s.len() as int) =~= s@);
}

/// Appends `s` right-aligned in a field of `w` characters.
fn push_pad_left(out: &mut Vec<char>, s: &Vec<char>, w: usize)
    ensures
        final(out)@ == old(out)@ + pad_left(s@, w as int),
{
    let ghost start = out@;
    if s.len() < w {
        push_spaces(out, w - s.len());
    } else {
        assert(spaces(w - s@.len()) =~= seq![]);
    }
    push_all(out, s);
    assert(out@ =~= start + pad_left(s@, w as int));
}

/// Appends `s` left-aligned in a field of `w` characters.
fn push_pad_right(out: &mut Vec<char>, s: &Vec<char>, w: usize)
    ensures
        final(out)@ == old(out)@ + pad_right(s@, w as int),
{
    let ghost start = out@;
    push_all(out, s);
    if s.len() < w {
        push_spaces(out, w - s.len());
    } else {
        assert(spaces(w - s@.len()) =~= seq![]);
    }
    assert(out@ =~= start + pad_right(s@, w as int));
}

/// Appends `s` centered in a field of `w` characters.
fn push_center(out: &mut Vec<char>, s: &Vec<char>, w: usize)
    ensures
        final(out)@ == old(out)@ + center(s@, w as int),
{
    let ghost start = out@;
    if s.len() >= w {
        push_all(out, s);
    } else {
        let total = w - s.len();
        let left = total / 2;
        push_spaces(out, left);
        push_all(out, s);
        push_spaces(out, total - left);
        assert(out@ =~= start + center(s@, w as int));
    }
}

/// The first space of `s` is at `i` when no earlier character is a space
/// and `i` is the end or a space.
proof fn lemma_first_space(s: Seq<char>, i: int)
    requires
        0 <= i <= s.len(),
        forall|k: int| 0 <= k < i ==> s[k] != ' ',
        i == s.len() || s[i] == ' ',
    ensures
        first_space(s) == i,
    decreases i,
{
    if i > 0 {
        let t = s.subrange(1, s.len() as int);
        assert forall|k: int| 0 <= k < i - 1 implies t[k] != ' ' by {
            assert(t[k] == s[k + 1]);
        }
        if i < s.len() {
            assert(t[i - 1] == s[i]);
        }
        lemma_first_space(t, i - 1);
    }
}

/// The first space of a line lies within it.
proof fn lemma_first_space_bound(s: Seq<char>)
    ensures
        0 <= first_space(s) <= s.len(),
    decreases s.len(),
{
    if s.len() > 0 && s[0] != ' ' {
        lemma_first_space_bound(s.subrange(1, s.len() as int));
    }
}

/// The position of the first space of `s` (its length when it has none).
fn find_space(s: &Vec<char>) -> (r: usize)
    ensures
        r == first_space(s@),
        r <= s.len(),
{
    let mut i: usize = 0;
    while i < s.len() && s[i] != ' '
        invariant
            i <= s.len(),
            forall|k: int| 0 <= k < i ==> s@[k] != ' ',
        decreases s.len() - i,
    {
        i += 1;
    }
    proof {
        lemma_first_space(s@, i as int);
    }
    i
}

/// The characters of `s` from `a` up to `b`.
fn copy_range(s: &Vec<char>, a: usize, b: usize) -> (r: Vec<char>)
    requires
        a <= b <= s.len(),
    ensures
        r@ == s@.subrange(a as int, b as int),
{
    let mut r: Vec<char> = Vec::new();
    let mut i: usize = a;
    while i < b
        invariant
            a <= i <= b,
            b <= s.len(),
            r@ == s@.subrange(a as int, i as int),
        decreases b - i,
    {
        r.push(s[i]);
        i += 1;
        assert(r@ =~= s@.subrange(a as int, i as int));
    }
    r
}

/// A cell laid out with the given value, unit and field widths.
fn cell_text(cell: &Vec<char>, vw: usize, uw: usize, fw: usize) -> (r: Vec<char>)
    ensures
        r@ == cell_layout(cell@, vw as int, uw as int, fw as int),
{
    let fs = find_space(cell);
    let value = copy_range(cell, 0, fs);
    let mut base: Vec<char> = Vec::new();
    push_pad_left(&mut base, &value, vw);
    if uw != 0 {
        base.push(' ');
        let unit = if fs < cell.len() { copy_range(cell, fs + 1, cell.len()) } else { Vec::new() };
        assert(unit@ == unit_part(cell@));
        push_pad_right(&mut base, &unit, uw);
    }
    assert(base@ =~= (if uw == 0 {
        pad_left(value_part(cell@), vw as int)
    } else {
        pad_left(value_part(cell@), vw as int) + seq![' '] + pad_right(unit_part(cell@), uw as int)
    }));
    let mut out: Vec<char> = Vec::new();
    push_pad_left(&mut out, &base, fw);
    assert(out@ =~= cell_layout(cell@, vw as int, uw as int, fw as int));
    out
}

/// The longest line a table cell or label may have: four times it still
/// fits a machine word, so widths and padded fields can be added up.
pub open spec fn line_limit() -> int {
    usize::MAX as int / 4
}

/// Every cell of the grid has `ncols` entries of at most [`line_limit`]
/// characters.
pub open spec fn grid_ok(cells: Seq<Vec<Vec<char>>>, ncols: int) -> bool {
    forall|r: int| 0 <= r < cells.len() ==> {
        &&& (#[trigger] cells[r])@.len() == ncols
        &&& forall|c: int| 0 <= c < ncols ==> (#[trigger] cells[r]@[c])@.len() <= line_limit()
    }
}

/// Column widths never exceed the longest cell.
proof fn lemma_widths_bounded(cells: Seq<Vec<Vec<char>>>, ncols: int, c: int, r: int)
    requires
        grid_ok(cells, ncols),
        0 <= c < ncols,
        r <= cells.len(),
    ensures
        0 <= value_width(cells, c, r) <= line_limit(),
        0 <= unit_width(cells, c, r) <= line_limit(),
    decreases r,
{
    if r > 0 {
        lemma_widths_bounded(cells, ncols, c, r - 1);
        let cell = cell_of(cells, r - 1, c);
        assert(cells[r - 1]@.len() == ncols);
        lemma_first_space_bound(cell);
        assert(cell.len() <= line_limit());
    }
}

/// Label margins never exceed the longest label.
proof fn lemma_label_pad_bounded(labels: Seq<Seq<char>>, k: int)
    requires
        k <= labels.len(),
        forall|i: int| 0 <= i < labels.len() ==> (#[trigger] labels[i]).len() <= line_limit(),
    ensures
        0 <= label_pad(labels, k) <= line_limit(),
    decreases k,
{
    if k > 0 {
        lemma_label_pad_bounded(labels, k - 1);
    }
}

/// The value and unit widths of every column.
fn column_widths(cells: &Vec<Vec<Vec<char>>>, ncols: usize) -> (r: (Vec<usize>, Vec<usize>))
    requires
        grid_ok(cells@, ncols as int),
    ensures
        r.0.len() == ncols,
        r.1.len() == ncols,
        forall|c: int| 0 <= c < ncols ==> #[trigger] r.0@[c] == value_width(cells@, c, cells.len() as int),
        forall|c: int| 0 <= c < ncols ==> #[trigger] r.1@[c] == unit_width(cells@, c, cells.len() as int),
{
    let mut vw: Vec<usize> = Vec::new();
    let mut uw: Vec<usize> = Vec::new();
    let mut c: usize = 0;
    while c < ncols
        invariant
            c <= ncols,
            vw.len() == c,
            uw.len() == c,
            forall|k: int| 0 <= k < c ==> #[trigger] vw@[k] == 0,
            forall|k: int| 0 <= k < c ==> #[trigger] uw@[k] == 0,
        decreases ncols - c,
    {
        vw.push(0);
        uw.push(0);
        c += 1;
    }
    let mut r: usize = 0;
    while r < cells.len()
        invariant
            r <= cells.len(),
            grid_ok(cells@, ncols as int),
            vw.len() == ncols,
            uw.len() == ncols,
            forall|k: int| 0 <= k < ncols ==> #[trigger] vw@[k] == value_width(cells@, k, r as int),
            forall|k: int| 0 <= k < ncols ==> #[trigger] uw@[k] == unit_width(cells@, k, r as int),
        decreases cells.len() - r,
    {
        let row = &cells[r];
        assert(row@.len() == ncols);
        let mut c: usize = 0;
        while c < ncols
            invariant
                r < cells.len(),
                c <= ncols,
                row == cells@[r as int],
                row@.len() == ncols,
                grid_ok(cells@, ncols as int),
                vw.len() == ncols,
                uw.len() == ncols,
                forall|k: int| 0 <= k < c ==> #[trigger] vw@[k] == value_width(cells@, k, r + 1),
                forall|k: int| 0 <= k < c ==> #[trigger] uw@[k] == unit_width(cells@, k, r + 1),
                forall|k: int| c <= k < ncols ==> #[trigger] vw@[k] == value_width(cells@, k, r as int),
                forall|k: int| c <= k < ncols ==> #[trigger] uw@[k] == unit_width(cells@, k, r as int),
            decreases ncols - c,
        {
            let cell = &row[c];
            let fs = find_space(cell);
            let ulen: usize = if fs < cell.len() { cell.len() - fs - 1 } else { 0 };
            proof {
                assert(cell@ == cell_of(cells@, r as int, c as int));
                assert(value_part(cell@).len() == fs);
                assert(unit_part(cell@).len() == ulen);
            }
            let v = if vw[c] >= fs { vw[c] } else { fs };
            let u = if uw[c] >= ulen { uw[c] } else { ulen };
            vw.set(c, v);
            uw.set(c, u);
            c += 1;
        }
        r += 1;
    }
    (vw, uw)
}

/// Appends body line `i`: `label` right-justified in a margin of `lp`
/// characters, a space, then the row's laid-out cells in brackets.
fn push_body_line(
    out: &mut Vec<char>,
    cells: &Vec<Vec<Vec<char>>>,
    label: &Vec<char>,
    Ghost(cl): Ghost<Seq<Seq<char>>>,
    i: usize,
    lp: usize,
    vw: &Vec<usize>,
    uw: &Vec<usize>,
    fw: &Vec<usize>,
)
    requires
        i < cells.len(),
        grid_ok(cells@, cl.len() as int),
        vw.len() == cl.len(),
        uw.len() == cl.len(),
        fw.len() == cl.len(),
        forall|k: int| 0 <= k < cl.len() ==> #[trigger] vw@[k] == value_width(cells@, k, cells.len() as int),
        forall|k: int| 0 <= k < cl.len() ==> #[trigger] uw@[k] == unit_width(cells@, k, cells.len() as int),
        forall|k: int| 0 <= k < cl.len() ==> #[trigger] fw@[k] == field_width(cells@, cl, k),
    ensures
        final(out)@ == old(out)@ + pad_left(label@, lp as int) + seq![' ', '[']
            + row_body(cells@, cl, i as int, cl.len() as int) + seq![']'],
{
    let ghost before = out@;
    push_pad_left(out, label, lp);
    out.push(' ');
    out.push('[');
    let ghost lead = out@;
    assert(lead =~= before + pad_left(label@, lp as int) + seq![' ', '[']);
    let row = &cells[i];
    let ncols = vw.len();
    assert(row@.len() == ncols);
    let mut c: usize = 0;
    while c < ncols
        invariant
            i < cells.len(),
            c <= ncols,
            row == cells@[i as int],
            row@.len() == ncols,
            ncols == cl.len(),
            vw.len() == ncols,
            uw.len() == ncols,
            fw.len() == ncols,
            forall|k: int| 0 <= k < ncols ==> #[trigger] vw@[k] == value_width(cells@, k, cells.len() as int),
            forall|k: int| 0 <= k < ncols ==> #[trigger] uw@[k] == unit_width(cells@, k, cells.len() as int),
            forall|k: int| 0 <= k < ncols ==> #[trigger] fw@[k] == field_width(cells@, cl, k),
            out@ == lead + row_body(cells@, cl, i as int, c as int),
        decreases ncols - c,
    {
        if c > 0 {
            push_spaces(out, 2);
        }
        let t = cell_text(&row[c], vw[c], uw[c], fw[c]);
        push_all(out, &t);
        proof {
            assert(row@[c as int]@ == cell_of(cells@, i as int, c as int));
            assert(out@ =~= lead + row_body(cells@, cl, i as int, c + 1));
        }
        c += 1;
    }
    out.push(']');
    assert(out@ =~= before + pad_left(label@, lp as int) + seq![' ', '[']
        + row_body(cells@, cl, i as int, cl.len() as int) + seq![']']);
}

/// Lays out a grid of rendered cells with its row and column unit labels:
/// the column labels centered over their fields on the first line, then one
/// line per row, its label right-justified in the left margin and its cells
/// in brackets, each cell's value right-aligned and unit left-aligned within
/// its column. Columns are separated by two spaces.
pub fn render_table(cells: &Vec<Vec<Vec<char>>>, row_labels: &Vec<Vec<char>>, col_labels: &Vec<Vec<char>>) -> (r: Vec<char>)
    requires
        row_labels.len() == cells.len(),
        grid_ok(cells@, col_labels.len() as int),
        forall|i: int| 0 <= i < row_labels.len() ==> (#[trigger] row_labels@[i])@.len() <= line_limit(),
        forall|i: int| 0 <= i < col_labels.len() ==> (#[trigger] col_labels@[i])@.len() <= line_limit(),
    ensures
        r@ == table(cells@, views(row_labels@), views(col_labels@)),
{
    let ghost rl = views(row_labels@);
    let ghost cl = views(col_labels@);
    let ncols = col_labels.len();
    let (vw, uw) = column_widths(cells, ncols);
    let mut fw: Vec<usize> = Vec::new();
    let mut c: usize = 0;
    while c < ncols
        invariant
            c <= ncols,
            ncols == col_labels.len(),
            cl == views(col_labels@),
            grid_ok(cells@, ncols as int),
            forall|i: int| 0 <= i < col_labels.len() ==> (#[trigger] col_labels@[i])@.len() <= line_limit(),
            vw.len() == ncols,
            uw.len() == ncols,
            forall|k: int| 0 <= k < ncols ==> #[trigger] vw@[k] == value_width(cells@, k, cells.len() as int),
            forall|k: int| 0 <= k < ncols ==> #[trigger] uw@[k] == unit_width(cells@, k, cells.len() as int),
            fw.len() == c,
            forall|k: int| 0 <= k < c ==> #[trigger] fw@[k] == field_width(cells@, cl, k),
        decreases ncols - c,
    {
        proof {
            lemma_widths_bounded(cells@, ncols as int, c as int, cells.len() as int);
        }
        let base = vw[c] + if uw[c] > 0 { 1 + uw[c] } else { 0 };
        let lw = col_labels[c].len();
        fw.push(if base >= lw { base } else { lw });
        c += 1;
    }
    let mut lp: usize = 0;
    let mut i: usize = 0;
    while i < row_labels.len()
        invariant
            i <= row_labels.len(),
            rl == views(row_labels@),
            forall|k: int| 0 <= k < row_labels.len() ==> (#[trigger] row_labels@[k])@.len() <= line_limit(),
            lp == label_pad(rl, i as int),
        decreases row_labels.len() - i,
    {
        let w = row_labels[i].len();
        if w > lp {
            lp = w;
        }
        i += 1;
    }
    let mut out: Vec<char> = Vec::new();
    push_spaces(&mut out, lp);
    push_spaces(&mut out, 2);
    let ghost margin = out@;
    let mut c: usize = 0;
    while c < ncols
        invariant
            c <= ncols,
            ncols == col_labels.len(),
            cl == views(col_labels@),
            fw.len() == ncols,
            forall|k: int| 0 <= k < ncols ==> #[trigger] fw@[k] == field_width(cells@, cl, k),
            out@ == margin + header_body(cells@, cl, c as int),
        decreases ncols - c,
    {
        if c > 0 {
            push_spaces(&mut out, 2);
        }
        push_center(&mut out, &col_labels[c], fw[c]);
        proof {
            assert(cl[c as int] == col_labels@[c as int]@);
            assert(out@ =~= margin + header_body(cells@, cl, c + 1));
        }
        c += 1;
    }
    out.push('\n');
    let ghost head = out@;
    assert(head =~= header_line(cells@, rl, cl) + seq!['\n']);
    let mut i: usize = 0;
    while i < cells.len()
        invariant
            i <= cells.len(),
            row_labels.len() == cells.len(),
            ncols == col_labels.len(),
            rl == views(row_labels@),
            cl == views(col_labels@),
            grid_ok(cells@, ncols as int),
            lp == label_pad(rl, rl.len() as int),
            vw.len() == ncols,
            uw.len() == ncols,
            fw.len() == ncols,
            forall|k: int| 0 <= k < ncols ==> #[trigger] vw@[k] == value_width(cells@, k, cells.len() as int),
            forall|k: int| 0 <= k < ncols ==> #[trigger] uw@[k] == unit_width(cells@, k, cells.len() as int),
            forall|k: int| 0 <= k < ncols ==> #[trigger] fw@[k] == field_width(cells@, cl, k),
            out@ == head + body_lines(cells@, rl, cl, i as int),
        decreases cells.len() - i,
    {
        let ghost before = out@;
        push_body_line(&mut out, cells, &row_labels[i], Ghost(cl), i, lp, &vw, &uw, &fw);
        proof {
            assert(row_labels@[i as int]@ == rl[i as int]);
            assert(out@ =~= before + body_line(cells@, rl, cl, i as int));
        }
        if i + 1 < cells.len() {
            out.push('\n');
        }
        proof {
            assert(out@ =~= head + body_lines(cells@, rl, cl, i + 1));
        }
        i += 1;
    }
    assert(out@ =~= table(cells@, rl, cl));
    out
}

/// The margin labels of a list of units.
pub open spec fn margin_labels(dims: Seq<Unit>) -> Seq<Seq<char>> {
    Seq::new(dims.len(), |i: int| margin_label(dims[i].exps()))
}

/// Every label has at most [`line_limit`] characters.
pub open spec fn labels_ok(labels: Seq<Seq<char>>) -> bool {
    forall|i: int| 0 <= i < labels.len() ==> (#[trigger] labels[i]).len() <= line_limit()
}

/// Whether every label of the list has at most [`line_limit`] characters.
fn labels_within_limit(labels: &Vec<Vec<char>>) -> (r: bool)
    ensures
        r == labels_ok(views(labels@)),
{
    let limit = usize::MAX / 4;
    let mut i: usize = 0;
    while i < labels.len()
        invariant
            i <= labels.len(),
            limit == line_limit(),
            forall|k: int| 0 <= k < i ==> (#[trigger] labels@[k])@.len() <= line_limit(),
        decreases labels.len() - i,
    {
        if labels[i].len() > limit {
            assert(views(labels@)[i as int].len() > line_limit());
            return false;
        }
        i += 1;
    }
    true
}

impl<T> MixedUnitMatrix<T> {
    /// Lays out the matrix: `cells[i][j]` is entry `(i, j)` rendered as
    /// `value unit` (or `value` when dimensionless); the row and column unit
    /// labels frame the grid (see [`render_table`]). `None` only when a unit
    /// label is longer than [`line_limit`].
    pub fn fmt(&self, cells: &Vec<Vec<Vec<char>>>) -> (r: Option<Vec<char>>)
        requires
            self.wf(),
            self.units_operable(),
            cells.len() == self.rows().len(),
            grid_ok(cells@, self.cols().len() as int),
        ensures
            r is Some <==> labels_ok(margin_labels(self.rows())) && labels_ok(margin_labels(self.cols())),
            r matches Some(t) ==> t@ == table(cells@, margin_labels(self.rows()), margin_labels(self.cols())),
    {
        let rl = unit_labels(&self.row_dims);
        let cl = unit_labels(&self.col_dims);
        assert(views(rl@) =~= margin_labels(self.rows()));
        assert(views(cl@) =~= margin_labels(self.cols()));
        if !labels_within_limit(&rl) || !labels_within_limit(&cl) {
            return None;
        }
        assert forall|i: int| 0 <= i < rl.len() implies (#[trigger] rl@[i])@.len() <= line_limit() by {
            assert(views(rl@)[i] == rl@[i]@);
        }
        assert forall|i: int| 0 <= i < cl.len() implies (#[trigger] cl@[i])@.len() <= line_limit() by {
            assert(views(cl@)[i] == cl@[i]@);
        }
        Some(render_table(cells, &rl, &cl))
    }
}

} // verus!
