use whippyalgebra::obligations::{
    all_predicates, axis_dim, decompose_preds, dimsum, matrix_predicates, norm_dim, offset,
    parse_axis, parse_matrix_decl, parse_matrix_spec, parse_shape, parse_shapes, parse_tracks,
    partition_preds, predicates, shape_is_formable, suffix, AttrError, AttrTok, AxisDim, Delim,
    Shape,
};

const NA: &str = "::whippyalgebra::nalgebra::__backend";
const WA: &str = "::whippyalgebra";

fn chars(s: &str) -> Vec<char> {
    s.chars().collect()
}

fn text(v: &[char]) -> String {
    v.iter().collect()
}

fn texts(v: &[Vec<char>]) -> Vec<String> {
    v.iter().map(|t| text(t)).collect()
}

fn list(items: &[&str]) -> Vec<Vec<char>> {
    items.iter().map(|s| chars(s)).collect()
}

fn is_punct(c: char) -> bool {
    !c.is_alphanumeric() && c != '_' && !c.is_whitespace() && !"()[]{}".contains(c)
}

/// Splits attribute text into tokens the way the compiler hands them over:
/// identifiers, integer literals, punctuation (joint when another
/// punctuation character follows at once) and group delimiters.
fn lex(src: &str) -> Vec<AttrTok> {
    let cs: Vec<char> = src.chars().collect();
    let mut out = Vec::new();
    let mut i = 0;
    while i < cs.len() {
        let c = cs[i];
        if c.is_whitespace() {
            i += 1;
        } else if c.is_alphabetic() || c == '_' {
            let start = i;
            while i < cs.len() && (cs[i].is_alphanumeric() || cs[i] == '_') {
                i += 1;
            }
            out.push(AttrTok::Ident(cs[start..i].to_vec()));
        } else if c.is_ascii_digit() {
            let start = i;
            while i < cs.len() && cs[i].is_alphanumeric() {
                i += 1;
            }
            out.push(AttrTok::Literal(cs[start..i].to_vec()));
        } else if "([{".contains(c) {
            out.push(AttrTok::Open(match c {
                '(' => Delim::Paren,
                '[' => Delim::Bracket,
                _ => Delim::Brace,
            }));
            i += 1;
        } else if ")]}".contains(c) {
            out.push(AttrTok::Close(match c {
                ')' => Delim::Paren,
                ']' => Delim::Bracket,
                _ => Delim::Brace,
            }));
            i += 1;
        } else {
            let joint = i + 1 < cs.len() && is_punct(cs[i + 1]);
            out.push(AttrTok::Punct(c, joint));
            i += 1;
        }
    }
    out
}

fn konst(n: &str) -> String {
    format!("{NA}::Const<{n} >")
}

fn shape(rows: &[&str], cols: &[&str], row_dims: Option<&[&str]>, col_dims: Option<&[&str]>, decompose: bool) -> Shape {
    Shape {
        rows: list(rows),
        cols: list(cols),
        row_dims: row_dims.map(list),
        col_dims: col_dims.map(list),
        decompose,
    }
}

#[test]
fn norm_dim_wraps_bare_parameters() {
    assert_eq!(text(&norm_dim(&chars("N"), true)), format!("{NA}::Const<N>"));
    assert_eq!(text(&norm_dim(&chars("U3"), false)), "U3");
}

#[test]
fn dimsum_and_suffix_fold_to_the_right() {
    let parts = list(&["A", "B", "C"]);
    assert_eq!(text(&dimsum(&parts, 0)), format!("{NA}::DimSum<A, {NA}::DimSum<B, C>>"));
    assert_eq!(text(&dimsum(&parts, 2)), "C");
    assert_eq!(
        text(&suffix(&parts, 0)),
        format!("{WA}::Concatenated<A, {WA}::Concatenated<B, C>>")
    );
    assert_eq!(text(&suffix(&parts, 1)), format!("{WA}::Concatenated<B, C>"));
}

#[test]
fn offsets_accumulate_preceding_sizes() {
    let dims = list(&["A", "B", "C"]);
    let mut extra = Vec::new();
    assert_eq!(text(&offset(&dims, 0, &mut extra)), format!("{WA}::Nat<0>"));
    assert!(extra.is_empty());
    assert_eq!(text(&offset(&dims, 1, &mut extra)), format!("<A as {WA}::ShapeIndex>::Nat"));
    assert!(extra.is_empty());
    let off2 = text(&offset(&dims, 2, &mut extra));
    let na = format!("<A as {WA}::ShapeIndex>::Nat");
    let nb = format!("<B as {WA}::ShapeIndex>::Nat");
    assert_eq!(off2, format!("<{na} as ::core::ops::Add<{nb}>>::Output"));
    assert_eq!(texts(&extra), vec![format!("{na}: ::core::ops::Add<{nb}>")]);
}

#[test]
fn decompose_workspace_of_square_and_rectangular() {
    let sq = texts(&decompose_preds(&chars("D"), &chars("D"), true));
    assert_eq!(
        sq,
        vec![
            format!("D: {NA}::DimSub<{NA}::U1>"),
            format!(
                "{NA}::DefaultAllocator: {NA}::allocator::Allocator<D, D> + {NA}::allocator::Allocator<D> + {NA}::allocator::Allocator<{NA}::DimDiff<D, {NA}::U1>> + {NA}::allocator::Allocator<D, {NA}::DimDiff<D, {NA}::U1>>"
            ),
        ]
    );
    let rect = texts(&decompose_preds(&chars("R"), &chars("C"), false));
    assert_eq!(rect.len(), 3);
    assert_eq!(rect[0], format!("R: {NA}::DimMin<C>"));
    assert_eq!(rect[1], format!("{NA}::DimMinimum<R, C>: {NA}::DimSub<{NA}::U1>"));
    assert!(rect[2].starts_with(&format!("{NA}::DefaultAllocator: {NA}::allocator::Allocator<R, C> + ")));
}

#[test]
fn partition_of_two_named_tracks() {
    let dims = list(&["N", "M"]);
    let lists = list(&["X", "Y"]);
    let got = texts(&partition_preds(&dims, &lists));
    let whole = format!("{WA}::Concatenated<X, Y>");
    assert_eq!(
        got,
        vec![
            format!("{whole}: {WA}::DimList"),
            format!("X: {WA}::DimList"),
            format!("Y: {WA}::DimList"),
            format!("X: {WA}::Concat<Y>"),
            format!("{whole}: {WA}::Take<<N as {WA}::ShapeIndex>::Nat, Out = X>"),
            format!("{whole}: {WA}::Drop<<N as {WA}::ShapeIndex>::Nat, Out = Y>"),
            format!("Y: {WA}::Take<<M as {WA}::ShapeIndex>::Nat, Out = Y>"),
        ]
    );
}

#[test]
fn predicates_of_a_single_square_block() {
    let c = konst("N");
    let s = shape(&[c.as_str()], &[c.as_str()], None, None, false);
    assert!(shape_is_formable(&s));
    let got = texts(&predicates(&s, false));
    assert_eq!(
        got,
        vec![
            format!("{c}: ::whippyalgebra::ShapeIndex"),
            format!("{NA}::DefaultAllocator: {NA}::allocator::Allocator<{c}>"),
            format!("{c}: {NA}::DimMin<{c}, Output = {c}>"),
        ]
    );
}

#[test]
fn predicates_of_a_uniform_two_by_one_grid() {
    let s = shape(&["A", "B"], &["K"], None, None, false);
    let got = texts(&predicates(&s, true));
    assert_eq!(
        got,
        vec![
            format!("A: {NA}::DimAdd<B>"),
            format!("{NA}::DefaultAllocator: {NA}::allocator::Allocator<{NA}::DimSum<A, B>, K>"),
        ]
    );
}

#[test]
fn predicates_deduplicate_shared_facts() {
    let s = shape(&["A", "A"], &["A", "A"], None, None, false);
    let got = texts(&predicates(&s, false));
    let shape_index = format!("A: ::whippyalgebra::ShapeIndex");
    assert_eq!(got.iter().filter(|p| **p == shape_index).count(), 1);
    let all = texts(&all_predicates(&vec![shape(&["A", "A"], &["A", "A"], None, None, false), s], false));
    let mut once: Vec<String> = Vec::new();
    for p in got {
        if !once.contains(&p) {
            once.push(p);
        }
    }
    assert_eq!(all, once);
}

#[test]
fn predicates_of_named_tracks_include_partitions_and_ties() {
    let s = shape(&["N"], &["M"], Some(&["X"]), Some(&["Y"]), false);
    let got = texts(&predicates(&s, false));
    assert!(got.contains(&format!("X: {WA}::DimList")));
    assert!(got.contains(&format!("X: {WA}::Take<<N as {WA}::ShapeIndex>::Nat, Out = X>")));
    assert!(got.contains(&format!("X: {WA}::nalgebra::CountDim<Dim = N>")));
    assert!(got.contains(&format!("Y: {WA}::nalgebra::CountDim<Dim = M>")));
}

#[test]
fn shapes_that_cannot_be_formed() {
    assert!(!shape_is_formable(&shape(&["N"], &["N"], Some(&["X", "Y"]), None, false)));
    assert!(!shape_is_formable(&shape(&[], &[], None, None, false)));
    assert!(!shape_is_formable(&shape(&[], &["N"], None, None, true)));
    assert!(shape_is_formable(&shape(&["N"], &["M"], None, None, true)));
}

#[test]
fn parse_tracks_reads_sizes_and_sublists() {
    let ts = lex("N, State; 3, Input");
    let (sizes, dims) = parse_tracks(&ts, 0, ts.len(), true).ok().unwrap();
    assert_eq!(texts(&sizes), vec![konst("N"), "3 ".to_string()]);
    assert_eq!(texts(&dims.unwrap()), vec!["State ".to_string(), "Input ".to_string()]);
    let ts = lex("N; M");
    let (sizes, dims) = parse_tracks(&ts, 0, ts.len(), false).ok().unwrap();
    assert_eq!(texts(&sizes), vec![konst("N"), konst("M")]);
    assert!(dims.is_none());
    let ts = lex("U2");
    let (sizes, _) = parse_tracks(&ts, 0, ts.len(), false).ok().unwrap();
    assert_eq!(texts(&sizes), vec![konst("U2")]);
}

#[test]
fn parse_tracks_keeps_paths_and_generics() {
    let ts = lex("nalgebra::U3, Concat<A, B>");
    let (sizes, dims) = parse_tracks(&ts, 0, ts.len(), true).ok().unwrap();
    assert_eq!(texts(&sizes), vec!["nalgebra :: U3 ".to_string()]);
    assert_eq!(texts(&dims.unwrap()), vec!["Concat < A , B > ".to_string()]);
}

#[test]
fn parse_tracks_errors() {
    let ts = lex("N, A; M");
    assert!(matches!(
        parse_tracks(&ts, 0, ts.len(), true),
        Err(AttrError::TrackCountMismatch { rows_axis: true, named: 1, total: 2 })
    ));
    let ts = lex("N, [f64]");
    assert!(matches!(parse_tracks(&ts, 0, ts.len(), true), Err(AttrError::UniformTrack)));
    let ts = lex("N, A, B");
    assert!(matches!(parse_tracks(&ts, 0, ts.len(), true), Err(AttrError::ExpectedTrackSeparator)));
    let ts = lex("; N");
    assert!(matches!(parse_tracks(&ts, 0, ts.len(), true), Err(AttrError::ExpectedType)));
    let ts = lex("N, ; M");
    assert!(matches!(parse_tracks(&ts, 0, ts.len(), false), Err(AttrError::ExpectedType)));
}

#[test]
fn parse_shape_reads_keys() {
    let ts = lex("rows(N; M), cols(N; M), decompose");
    let s = parse_shape(&ts, 0, ts.len()).ok().unwrap();
    assert_eq!(texts(&s.rows), vec![konst("N"), konst("M")]);
    assert_eq!(texts(&s.cols), vec![konst("N"), konst("M")]);
    assert!(s.row_dims.is_none());
    assert!(s.decompose);
    let ts = lex("cols(K) rows(N, X)");
    let s = parse_shape(&ts, 0, ts.len()).ok().unwrap();
    assert_eq!(texts(&s.row_dims.unwrap()), vec!["X ".to_string()]);
    assert!(!s.decompose);
}

#[test]
fn parse_shape_errors() {
    let ts = lex("");
    assert!(matches!(parse_shape(&ts, 0, 0), Err(AttrError::MissingRows)));
    let ts = lex("rows(N)");
    assert!(matches!(parse_shape(&ts, 0, ts.len()), Err(AttrError::MissingCols)));
    let ts = lex("cols(N)");
    assert!(matches!(parse_shape(&ts, 0, ts.len()), Err(AttrError::MissingRows)));
    let ts = lex("rows N");
    assert!(matches!(parse_shape(&ts, 0, ts.len()), Err(AttrError::ExpectedParens)));
    let ts = lex("rows(N), width(M)");
    assert!(matches!(parse_shape(&ts, 0, ts.len()), Err(AttrError::UnexpectedKey(5))));
    let ts = lex("(rows)");
    assert!(matches!(parse_shape(&ts, 0, ts.len()), Err(AttrError::ExpectedIdent)));
}

#[test]
fn parse_shapes_single_and_blocks() {
    let ts = lex("rows(N), cols(N)");
    let s = parse_shapes(&ts).ok().unwrap();
    assert!(!s.uniform);
    assert_eq!(s.shapes.len(), 1);
    let ts = lex("uniform, block(rows(N), cols(M)), block(rows(M; K), cols(N))");
    let s = parse_shapes(&ts).ok().unwrap();
    assert!(s.uniform);
    assert_eq!(s.shapes.len(), 2);
    assert_eq!(texts(&s.shapes[1].rows), vec![konst("M"), konst("K")]);
}

#[test]
fn parse_shapes_errors() {
    let ts = lex("uniform, rows(N, X), cols(N)");
    assert!(matches!(parse_shapes(&ts), Err(AttrError::SublistInUniformBlock)));
    let ts = lex("block(rows(N), cols(N)), grid(rows(N), cols(N))");
    assert!(matches!(parse_shapes(&ts), Err(AttrError::ExpectedBlock)));
    let ts = lex("block(rows(N), cols(N)), ;");
    assert!(matches!(parse_shapes(&ts), Err(AttrError::ExpectedIdent)));
    let ts = lex("block rows");
    assert!(matches!(parse_shapes(&ts), Err(AttrError::ExpectedParens)));
}

#[test]
fn parse_axis_reads_lists_and_uniform_elements() {
    let ts = lex("N, State");
    let (size, dim) = parse_axis(&ts, 0, ts.len()).ok().unwrap();
    assert_eq!(text(&size), konst("N"));
    assert!(matches!(dim, Some(AxisDim::List(ref l)) if text(l) == "State "));
    let ts = lex("N, [Metre]");
    let (_, dim) = parse_axis(&ts, 0, ts.len()).ok().unwrap();
    assert!(matches!(dim, Some(AxisDim::Uniform(ref e)) if text(e) == "Metre "));
    let ts = lex("N");
    let (_, dim) = parse_axis(&ts, 0, ts.len()).ok().unwrap();
    assert!(dim.is_none());
    let ts = lex("N, A; M");
    assert!(matches!(parse_axis(&ts, 0, ts.len()), Err(AttrError::ExpectedAxisEnd)));
    assert!(matches!(axis_dim(chars("L"), None), AxisDim::List(_)));
    assert!(matches!(axis_dim(chars("L"), Some(chars("E"))), AxisDim::Uniform(_)));
}

#[test]
fn parse_matrix_decl_and_spec() {
    let ts = lex("rows(N, S), cols(N, [f64]), decompose");
    let m = parse_matrix_decl(&ts, 0, ts.len()).ok().unwrap();
    assert_eq!(text(&m.row), konst("N"));
    assert!(m.decompose);
    let ts = lex("matrix(rows(N, S), cols(N, [f64])), matrix(rows(N), cols(M))");
    let spec = parse_matrix_spec(&ts).ok().unwrap();
    assert!(!spec.uniform);
    assert_eq!(spec.shapes.len(), 2);
    let ts = lex("uniform, matrix(rows(N, S), cols(N))");
    assert!(matches!(parse_matrix_spec(&ts), Err(AttrError::SublistInUniformMatrix)));
    let ts = lex("matrix(rows(N), cols(N)), block(rows(N), cols(N))");
    assert!(matches!(parse_matrix_spec(&ts), Err(AttrError::ExpectedMatrix)));
}

#[test]
fn matrix_predicates_of_a_square_declaration() {
    let ts = lex("rows(N, S), cols(N, [f64])");
    let spec = parse_matrix_spec(&ts).ok().unwrap();
    let n = konst("N");
    assert_eq!(
        texts(&matrix_predicates(&spec)),
        vec![
            format!("{n}: {WA}::nalgebra::SquareDim"),
            format!("S : {WA}::DimList"),
            format!("<{n} as {WA}::ShapeIndex>::Nat: {WA}::Repeat<f64 >"),
        ]
    );
}

#[test]
fn matrix_predicates_of_rectangular_declarations() {
    let ts = lex("matrix(rows(N), cols(M)), matrix(rows(M), cols(M), decompose)");
    let spec = parse_matrix_spec(&ts).ok().unwrap();
    let n = konst("N");
    let m = konst("M");
    let got = texts(&matrix_predicates(&spec));
    assert_eq!(got[0], format!("{m}: {WA}::nalgebra::SquareDim"));
    assert_eq!(got[1], format!("{n}: ::whippyalgebra::ShapeIndex"));
    assert_eq!(got[2], format!("{m}: {NA}::DimSub<{NA}::U1>"));
    assert_eq!(got.len(), 4);
    let ts = lex("uniform, rows(N), cols(M)");
    let spec = parse_matrix_spec(&ts).ok().unwrap();
    assert!(matrix_predicates(&spec).is_empty());
}

#[test]
fn attribute_error_messages() {
    let ts = lex("rows(N), width(M)");
    let e = parse_shape(&ts, 0, ts.len()).err().unwrap();
    assert_eq!(text(&e.message(&ts)), "unexpected `width`; expected `rows`, `cols`, or `decompose`");
    let ts = lex("N, A; M");
    let e = parse_tracks(&ts, 0, ts.len(), true).err().unwrap();
    assert_eq!(
        text(&e.message(&ts)),
        "`rows`: 1 of 2 tracks name a dimension list; give one for every track (`size, dims`) or none"
    );
    let many = AttrError::TrackCountMismatch { rows_axis: false, named: 10, total: 123 };
    assert_eq!(
        text(&many.message(&ts)),
        "`cols`: 10 of 123 tracks name a dimension list; give one for every track (`size, dims`) or none"
    );
    assert_eq!(text(&AttrError::MissingRows.message(&ts)), "missing `rows(...)`");
    assert_eq!(
        text(&AttrError::SublistInUniformMatrix.message(&ts)),
        "generic_matrix(uniform, ..): a uniform matrix has no dimension lists \u{2014} drop the sublist and write bare sizes, e.g. `uniform, rows(N), cols(M)`"
    );
    assert_eq!(
        text(&AttrError::ExpectedAxisEnd.message(&ts)),
        "expected `(size)`, `(size, dims)`, or `(size, [Element])`"
    );
}

#[test]
fn parse_tracks_reads_an_arrow_inside_a_type() {
    let ts = lex("N, Foo<Box<dyn Fn() -> u8>, X>; M, B");
    let (sizes, dims) = parse_tracks(&ts, 0, ts.len(), true).ok().unwrap();
    assert_eq!(texts(&sizes), vec![konst("N"), konst("M")]);
    let dims = texts(&dims.unwrap());
    assert_eq!(dims.len(), 2);
    assert!(dims[0].starts_with("Foo < Box < dyn Fn"));
    assert!(dims[0].contains("->"));
    assert!(dims[0].contains(", X >"));
    assert_eq!(dims[1], "B ".to_string());
}
