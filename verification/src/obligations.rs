//! The `where`-clause obligations of generic matrix code.
//!
//! Generic code over unit-carrying matrices needs a pile of bounds on its
//! size and unit-list parameters: the storage allocators and `DimAdd`s of
//! block assembly, the `ShapeIndex` facts that slicing needs, the partition
//! facts that tie named sublists to their tracks, the square-operation and
//! decomposition-workspace bounds. This module derives that pile from a
//! declared shape. Types are handled as their source text; each obligation
//! is produced as the text of one `where` predicate, and duplicates are
//! dropped where a `where` clause would state a fact once.

use vstd::prelude::*;
use vstd::string::StrSliceExecFns;
use crate::display::views;

verus! {

// ---------------------------------------------------------------------------
// Text
// ---------------------------------------------------------------------------

/// Appends the characters of the literal `s`.
fn push_lit(out: &mut Vec<char>, s: &str)
    ensures
        final(out)@ == old(out)@ + s@,
{
    let ghost start = out@;
    let n = s.unicode_len();
    let mut i: usize = 0;
    while i < n
        invariant
            i <= n,
            n == s@.len(),
            out@ == start + s@.subrange(0, i as int),
        decreases n - i,
    {
        out.push(s.get_char(i));
        i += 1;
        assert(out@ =~= start + s@.subrange(0, i as int));
    }
    assert(s@.subrange(0, n as int) =~= s@);
}

/// Appends the characters of `s`.
fn push_text(out: &mut Vec<char>, s: &Vec<char>)
    ensures
        final(out)@ == old(out)@ + s@,
{
    let ghost start = out@;
    let mut i: usize = 0;
    while i < s.len()
        invariant
            i <= s.len(),
            out@ == start + s@.subrange(0, i as int),
        decreases s.len() - i,
    {
        out.push(s[i]);
        i += 1;
        assert(out@ =~= start + s@.subrange(0, i as int));
    }
    assert(s@.subrange(0, s.len() as int) =~= s@);
}

/// Whether two texts are equal.
fn text_eq(a: &Vec<char>, b: &Vec<char>) -> (r: bool)
    ensures
        r == (a@ == b@),
{
    if a.len() != b.len() {
        return false;
    }
    let mut i: usize = 0;
    while i < a.len()
        invariant
            i <= a.len(),
            a.len() == b.len(),
            forall|k: int| 0 <= k < i ==> a@[k] == b@[k],
        decreases a.len() - i,
    {
        if a[i] != b[i] {
            return false;
        }
        i += 1;
    }
    assert(a@ =~= b@);
    true
}

/// An owned copy of a text.
fn copy_text(s: &Vec<char>) -> (r: Vec<char>)
    ensures
        r@ == s@,
{
    let mut r: Vec<char> = Vec::new();
    push_text(&mut r, s);
    assert(r@ =~= s@);
    r
}

// ---------------------------------------------------------------------------
// Deduplication
// ---------------------------------------------------------------------------

/// `acc` followed by `x` unless `acc` already holds it.
pub open spec fn push_new(acc: Seq<Seq<char>>, x: Seq<char>) -> Seq<Seq<char>> {
    if acc.contains(x) { acc } else { acc.push(x) }
}

/// `acc` followed by each item of `items` not seen before, in order (the
/// first occurrence wins).
pub open spec fn dedup_onto(acc: Seq<Seq<char>>, items: Seq<Seq<char>>) -> Seq<Seq<char>>
    decreases items.len(),
{
    if items.len() == 0 {
        acc
    } else {
        push_new(dedup_onto(acc, items.drop_last()), items.last())
    }
}

/// Deduplicating a concatenation is deduplicating its parts in turn.
proof fn lemma_dedup_onto_concat(acc: Seq<Seq<char>>, a: Seq<Seq<char>>, b: Seq<Seq<char>>)
    ensures
        dedup_onto(acc, a + b) == dedup_onto(dedup_onto(acc, a), b),
    decreases b.len(),
{
    if b.len() == 0 {
        assert(a + b =~= a);
    } else {
        assert((a + b).drop_last() =~= a + b.drop_last());
        assert((a + b).last() == b.last());
        lemma_dedup_onto_concat(acc, a, b.drop_last());
    }
}

/// Whether `list` holds the text `x`.
fn holds(list: &Vec<Vec<char>>, x: &Vec<char>) -> (r: bool)
    ensures
        r == views(list@).contains(x@),
{
    let mut i: usize = 0;
    while i < list.len()
        invariant
            i <= list.len(),
            forall|k: int| 0 <= k < i ==> list@[k]@ != x@,
        decreases list.len() - i,
    {
        if text_eq(&list[i], x) {
            assert(views(list@)[i as int] == x@);
            return true;
        }
        i += 1;
    }
    assert forall|k: int| 0 <= k < views(list@).len() implies views(list@)[k] != x@ by {
        assert(views(list@)[k] == list@[k]@);
    }
    false
}

/// Appends `x` to `out` unless `out` already holds it.
fn push_unique(out: &mut Vec<Vec<char>>, x: Vec<char>)
    ensures
        views(final(out)@) == push_new(views(old(out)@), x@),
{
    if !holds(out, &x) {
        out.push(x);
        assert(views(out@) =~= views(old(out)@).push(x@));
    }
}

/// Appends to `out`, in order, each item of `items` it does not yet hold.
fn push_all_unique(out: &mut Vec<Vec<char>>, items: &Vec<Vec<char>>)
    ensures
        views(final(out)@) == dedup_onto(views(old(out)@), views(items@)),
{
    let ghost start = views(out@);
    let mut i: usize = 0;
    while i < items.len()
        invariant
            i <= items.len(),
            views(out@) == dedup_onto(start, views(items@).subrange(0, i as int)),
        decreases items.len() - i,
    {
        let x = copy_text(&items[i]);
        push_unique(out, x);
        proof {
            let s = views(items@).subrange(0, i + 1);
            assert(s.drop_last() =~= views(items@).subrange(0, i as int));
            assert(s.last() == items@[i as int]@);
        }
        i += 1;
    }
    assert(views(items@).subrange(0, items.len() as int) =~= views(items@));
}

/// Appends every item of `items` to `out`.
fn push_all(out: &mut Vec<Vec<char>>, items: &Vec<Vec<char>>)
    ensures
        views(final(out)@) == views(old(out)@) + views(items@),
{
    let ghost start = views(out@);
    let ghost all = views(items@);
    let mut i: usize = 0;
    while i < items.len()
        invariant
            i <= items.len(),
            all == views(items@),
            views(out@) == start + all.subrange(0, i as int),
        decreases items.len() - i,
    {
        let x = copy_text(&items[i]);
        let ghost prev = out@;
        out.push(x);
        assert(views(out@) =~= views(prev).push(all[i as int]));
        i += 1;
        assert(views(out@) =~= start + all.subrange(0, i as int));
    }
    assert(all.subrange(0, items.len() as int) =~= all);
}

// ---------------------------------------------------------------------------
// Type and predicate texts
// ---------------------------------------------------------------------------

/// The path of the nalgebra backend as re-exported by the library.
pub open spec fn na() -> Seq<char> {
    "::whippyalgebra::nalgebra::__backend"@
}

/// The library's root path.
pub open spec fn wa() -> Seq<char> {
    "::whippyalgebra"@
}

/// The library's nalgebra adapter module.
pub open spec fn wa_na() -> Seq<char> {
    "::whippyalgebra::nalgebra"@
}

/// `a, b`.
pub open spec fn pair(a: Seq<char>, b: Seq<char>) -> Seq<char> {
    a + ", "@ + b
}

/// `Const<ident>`.
pub open spec fn t_const(ident: Seq<char>) -> Seq<char> {
    na() + "::Const<"@ + ident + ">"@
}

/// `DimSum<p, acc>`.
pub open spec fn t_dimsum(p: Seq<char>, acc: Seq<char>) -> Seq<char> {
    na() + "::DimSum<"@ + pair(p, acc) + ">"@
}

/// `Concatenated<l, acc>`.
pub open spec fn t_concatenated(l: Seq<char>, acc: Seq<char>) -> Seq<char> {
    wa() + "::Concatenated<"@ + pair(l, acc) + ">"@
}

/// The type-level natural of a size: `<d as ShapeIndex>::Nat`.
pub open spec fn t_nat_size(d: Seq<char>) -> Seq<char> {
    "<"@ + d + " as "@ + wa() + "::ShapeIndex>::Nat"@
}

/// The type-level zero, `Nat<0>`.
pub open spec fn t_nat0() -> Seq<char> {
    wa() + "::Nat<0>"@
}

/// The type-level sum `<s as Add<acc>>::Output`.
pub open spec fn t_add_output(s: Seq<char>, acc: Seq<char>) -> Seq<char> {
    "<"@ + s + " as ::core::ops::Add<"@ + acc + ">>::Output"@
}

/// `DimMinimum<r, c>`.
pub open spec fn t_dim_minimum(r: Seq<char>, c: Seq<char>) -> Seq<char> {
    na() + "::DimMinimum<"@ + pair(r, c) + ">"@
}

/// `DimDiff<m, U1>`.
pub open spec fn t_dim_diff1(m: Seq<char>) -> Seq<char> {
    na() + "::DimDiff<"@ + m + ", "@ + na() + "::U1>"@
}

/// `a: DimAdd<b>`.
pub open spec fn p_dimadd(a: Seq<char>, b: Seq<char>) -> Seq<char> {
    a + ": "@ + na() + "::DimAdd<"@ + b + ">"@
}

/// One allocator bound `Allocator<x>`.
pub open spec fn alloc_term(x: Seq<char>) -> Seq<char> {
    na() + "::allocator::Allocator<"@ + x + ">"@
}

/// `DefaultAllocator: Allocator<x>`.
pub open spec fn p_alloc(x: Seq<char>) -> Seq<char> {
    na() + "::DefaultAllocator: "@ + alloc_term(x)
}

/// `d: ShapeIndex`.
pub open spec fn p_shape_index(d: Seq<char>) -> Seq<char> {
    d + ": ::whippyalgebra::ShapeIndex"@
}

/// `l: DimList`.
pub open spec fn p_dimlist(l: Seq<char>) -> Seq<char> {
    l + ": "@ + wa() + "::DimList"@
}

/// `l: Concat<suf>`.
pub open spec fn p_concat(l: Seq<char>, suf: Seq<char>) -> Seq<char> {
    l + ": "@ + wa() + "::Concat<"@ + suf + ">"@
}

/// `w: Take<n, Out = l>`.
pub open spec fn p_take(w: Seq<char>, n: Seq<char>, l: Seq<char>) -> Seq<char> {
    w + ": "@ + wa() + "::Take<"@ + n + ", Out = "@ + l + ">"@
}

/// `w: Drop<off, Out = suf>`.
pub open spec fn p_drop(w: Seq<char>, off: Seq<char>, suf: Seq<char>) -> Seq<char> {
    w + ": "@ + wa() + "::Drop<"@ + off + ", Out = "@ + suf + ">"@
}

/// `l: CountDim<Dim = d>`.
pub open spec fn p_countdim(l: Seq<char>, d: Seq<char>) -> Seq<char> {
    l + ": "@ + wa_na() + "::CountDim<Dim = "@ + d + ">"@
}

/// `t: DimMin<t, Output = t>`.
pub open spec fn p_dimmin_self(t: Seq<char>) -> Seq<char> {
    t + ": "@ + na() + "::DimMin<"@ + t + ", Output = "@ + t + ">"@
}

/// `r: SquareDim`.
pub open spec fn p_squaredim(r: Seq<char>) -> Seq<char> {
    r + ": "@ + wa_na() + "::SquareDim"@
}

/// `<size as ShapeIndex>::Nat: Repeat<e>`.
pub open spec fn p_repeat(size: Seq<char>, e: Seq<char>) -> Seq<char> {
    t_nat_size(size) + ": "@ + wa() + "::Repeat<"@ + e + ">"@
}

/// `s: Add<acc>`.
pub open spec fn p_add_bound(s: Seq<char>, acc: Seq<char>) -> Seq<char> {
    s + ": ::core::ops::Add<"@ + acc + ">"@
}

/// `d: DimSub<U1>`.
pub open spec fn p_dimsub1(d: Seq<char>) -> Seq<char> {
    d + ": "@ + na() + "::DimSub<"@ + na() + "::U1>"@
}

/// `r: DimMin<c>`.
pub open spec fn p_dimmin(r: Seq<char>, c: Seq<char>) -> Seq<char> {
    r + ": "@ + na() + "::DimMin<"@ + c + ">"@
}

/// `DefaultAllocator: t0 + t1 + …`, one allocator bound per argument list.
pub open spec fn p_alloc_sum(args: Seq<Seq<char>>) -> Seq<char> {
    na() + "::DefaultAllocator: "@ + alloc_terms(args)
}

/// `Allocator<args[0]> + Allocator<args[1]> + …`.
pub open spec fn alloc_terms(args: Seq<Seq<char>>) -> Seq<char>
    decreases args.len(),
{
    if args.len() == 0 {
        seq![]
    } else if args.len() == 1 {
        alloc_term(args[0])
    } else {
        alloc_terms(args.drop_last()) + " + "@ + alloc_term(args.last())
    }
}

/// Appends `na()`.
fn push_na(out: &mut Vec<char>)
    ensures
        final(out)@ == old(out)@ + na(),
{
    push_lit(out, "::whippyalgebra::nalgebra::__backend");
}

/// Appends `wa()`.
fn push_wa(out: &mut Vec<char>)
    ensures
        final(out)@ == old(out)@ + wa(),
{
    push_lit(out, "::whippyalgebra");
}

/// Appends `wa_na()`.
fn push_wa_na(out: &mut Vec<char>)
    ensures
        final(out)@ == old(out)@ + wa_na(),
{
    push_lit(out, "::whippyalgebra::nalgebra");
}

/// The text `a, b`.
fn pair_text(a: &Vec<char>, b: &Vec<char>) -> (r: Vec<char>)
    ensures
        r@ == pair(a@, b@),
{
    let mut r = copy_text(a);
    push_lit(&mut r, ", ");
    push_text(&mut r, b);
    r
}

/// Wraps a bare size parameter `N` as `Const<N>`; any other size is kept as
/// written.
pub fn norm_dim(text: &Vec<char>, bare_param: bool) -> (r: Vec<char>)
    ensures
        r@ == (if bare_param { t_const(text@) } else { text@ }),
{
    if bare_param {
        let mut r: Vec<char> = Vec::new();
        push_na(&mut r);
        push_lit(&mut r, "::Const<");
        push_text(&mut r, text);
        push_lit(&mut r, ">");
        assert(r@ =~= t_const(text@));
        r
    } else {
        copy_text(text)
    }
}

/// The text of `DimSum<p, acc>`.
fn dimsum_text(p: &Vec<char>, acc: &Vec<char>) -> (r: Vec<char>)
    ensures
        r@ == t_dimsum(p@, acc@),
{
    let mut r: Vec<char> = Vec::new();
    push_na(&mut r);
    push_lit(&mut r, "::DimSum<");
    push_text(&mut r, &pair_text(p, acc));
    push_lit(&mut r, ">");
    assert(r@ =~= t_dimsum(p@, acc@));
    r
}

/// The text of `Concatenated<l, acc>`.
fn concatenated_text(l: &Vec<char>, acc: &Vec<char>) -> (r: Vec<char>)
    ensures
        r@ == t_concatenated(l@, acc@),
{
    let mut r: Vec<char> = Vec::new();
    push_wa(&mut r);
    push_lit(&mut r, "::Concatenated<");
    push_text(&mut r, &pair_text(l, acc));
    push_lit(&mut r, ">");
    assert(r@ =~= t_concatenated(l@, acc@));
    r
}

/// The text of `<d as ShapeIndex>::Nat`.
fn nat_size(d: &Vec<char>) -> (r: Vec<char>)
    ensures
        r@ == t_nat_size(d@),
{
    let mut r: Vec<char> = Vec::new();
    push_lit(&mut r, "<");
    push_text(&mut r, d);
    push_lit(&mut r, " as ");
    push_wa(&mut r);
    push_lit(&mut r, "::ShapeIndex>::Nat");
    assert(r@ =~= t_nat_size(d@));
    r
}

/// The text of `<s as Add<acc>>::Output`.
fn add_output_text(s: &Vec<char>, acc: &Vec<char>) -> (r: Vec<char>)
    ensures
        r@ == t_add_output(s@, acc@),
{
    let mut r: Vec<char> = Vec::new();
    push_lit(&mut r, "<");
    push_text(&mut r, s);
    push_lit(&mut r, " as ::core::ops::Add<");
    push_text(&mut r, acc);
    push_lit(&mut r, ">>::Output");
    assert(r@ =~= t_add_output(s@, acc@));
    r
}

/// The text of a predicate `a` + `mid` + `b` + `end`, for the predicates of
/// the form `a: Trait<b>`.
fn bound_text(a: &Vec<char>, mid: &Vec<char>, b: &Vec<char>, end: &str) -> (r: Vec<char>)
    ensures
        r@ == a@ + mid@ + b@ + end@,
{
    let mut r = copy_text(a);
    push_text(&mut r, mid);
    push_text(&mut r, b);
    push_lit(&mut r, end);
    assert(r@ =~= a@ + mid@ + b@ + end@);
    r
}

/// `: ` followed by a path prefix and `tail`.
fn colon_path(prefix: u8, tail: &str) -> (r: Vec<char>)
    ensures
        r@ == ": "@ + (if prefix == 0 { na() } else if prefix == 1 { wa() } else { wa_na() }) + tail@,
{
    let mut r: Vec<char> = Vec::new();
    push_lit(&mut r, ": ");
    if prefix == 0 {
        push_na(&mut r);
    } else if prefix == 1 {
        push_wa(&mut r);
    } else {
        push_wa_na(&mut r);
    }
    push_lit(&mut r, tail);
    r
}

/// The text of `a: DimAdd<b>`.
fn dimadd_pred(a: &Vec<char>, b: &Vec<char>) -> (r: Vec<char>)
    ensures
        r@ == p_dimadd(a@, b@),
{
    let r = bound_text(a, &colon_path(0, "::DimAdd<"), b, ">");
    assert(r@ =~= p_dimadd(a@, b@));
    r
}

/// Appends `Allocator<x>`.
fn push_alloc_term(out: &mut Vec<char>, x: &Vec<char>)
    ensures
        final(out)@ == old(out)@ + alloc_term(x@),
{
    let ghost start = out@;
    push_na(out);
    push_lit(out, "::allocator::Allocator<");
    push_text(out, x);
    push_lit(out, ">");
    assert(out@ =~= start + alloc_term(x@));
}

/// The text of `DefaultAllocator: Allocator<x>`.
fn alloc_pred(x: &Vec<char>) -> (r: Vec<char>)
    ensures
        r@ == p_alloc(x@),
{
    let mut r: Vec<char> = Vec::new();
    push_na(&mut r);
    push_lit(&mut r, "::DefaultAllocator: ");
    push_alloc_term(&mut r, x);
    assert(r@ =~= p_alloc(x@));
    r
}

/// The text of `DefaultAllocator: Allocator<args[0]> + …` for a non-empty
/// list of argument lists.
fn alloc_sum_pred(args: &Vec<Vec<char>>) -> (r: Vec<char>)
    requires
        args.len() > 0,
    ensures
        r@ == p_alloc_sum(views(args@)),
{
    let ghost a = views(args@);
    let mut r: Vec<char> = Vec::new();
    push_na(&mut r);
    push_lit(&mut r, "::DefaultAllocator: ");
    let ghost head = r@;
    push_alloc_term(&mut r, &args[0]);
    assert(a.subrange(0, 1).drop_last() =~= seq![]);
    assert(alloc_terms(a.subrange(0, 1)) == alloc_term(a[0]));
    let mut i: usize = 1;
    while i < args.len()
        invariant
            1 <= i <= args.len(),
            a == views(args@),
            r@ == head + alloc_terms(a.subrange(0, i as int)),
        decreases args.len() - i,
    {
        push_lit(&mut r, " + ");
        push_alloc_term(&mut r, &args[i]);
        proof {
            let s = a.subrange(0, i + 1);
            assert(s.drop_last() =~= a.subrange(0, i as int));
            assert(s.last() == args@[i as int]@);
        }
        i += 1;
    }
    assert(a.subrange(0, args.len() as int) =~= a);
    r
}

/// The text of `a` followed by `: ` + path + `tail`: the bounds
/// `l: DimList`, `r: SquareDim` and `d: DimSub<U1>`-like predicates whose
/// trait has no argument taken from the inputs (`prefix` selects the path:
/// 0 the backend, 1 the library, 2 its adapter).
fn suffix_bound(a: &Vec<char>, prefix: u8, tail: &str) -> (r: Vec<char>)
    ensures
        r@ == a@ + ": "@ + (if prefix == 0 { na() } else if prefix == 1 { wa() } else { wa_na() }) + tail@,
{
    let mut r = copy_text(a);
    push_text(&mut r, &colon_path(prefix, tail));
    assert(r@ =~= a@ + ": "@ + (if prefix == 0 { na() } else if prefix == 1 { wa() } else { wa_na() }) + tail@);
    r
}

/// The text of `d: ShapeIndex`.
fn shape_index_pred(d: &Vec<char>) -> (r: Vec<char>)
    ensures
        r@ == p_shape_index(d@),
{
    let mut r = copy_text(d);
    push_lit(&mut r, ": ::whippyalgebra::ShapeIndex");
    r
}

/// The text of `l: DimList`.
fn dimlist_pred(l: &Vec<char>) -> (r: Vec<char>)
    ensures
        r@ == p_dimlist(l@),
{
    let r = suffix_bound(l, 1, "::DimList");
    assert(r@ =~= p_dimlist(l@));
    r
}

/// The text of `r: SquareDim`.
fn squaredim_pred(d: &Vec<char>) -> (r: Vec<char>)
    ensures
        r@ == p_squaredim(d@),
{
    let r = suffix_bound(d, 2, "::SquareDim");
    assert(r@ =~= p_squaredim(d@));
    r
}

/// The text of `l: Concat<suf>`.
fn concat_pred(l: &Vec<char>, suf: &Vec<char>) -> (r: Vec<char>)
    ensures
        r@ == p_concat(l@, suf@),
{
    let r = bound_text(l, &colon_path(1, "::Concat<"), suf, ">");
    assert(r@ =~= p_concat(l@, suf@));
    r
}

/// The text of `w: Take<n, Out = l>`.
fn take_pred(w: &Vec<char>, n: &Vec<char>, l: &Vec<char>) -> (r: Vec<char>)
    ensures
        r@ == p_take(w@, n@, l@),
{
    let mut r = bound_text(w, &colon_path(1, "::Take<"), n, ", Out = ");
    push_text(&mut r, l);
    push_lit(&mut r, ">");
    assert(r@ =~= p_take(w@, n@, l@));
    r
}

/// The text of `w: Drop<off, Out = suf>`.
fn drop_pred(w: &Vec<char>, off: &Vec<char>, suf: &Vec<char>) -> (r: Vec<char>)
    ensures
        r@ == p_drop(w@, off@, suf@),
{
    let mut r = bound_text(w, &colon_path(1, "::Drop<"), off, ", Out = ");
    push_text(&mut r, suf);
    push_lit(&mut r, ">");
    assert(r@ =~= p_drop(w@, off@, suf@));
    r
}

/// The text of `l: CountDim<Dim = d>`.
fn countdim_pred(l: &Vec<char>, d: &Vec<char>) -> (r: Vec<char>)
    ensures
        r@ == p_countdim(l@, d@),
{
    let r = bound_text(l, &colon_path(2, "::CountDim<Dim = "), d, ">");
    assert(r@ =~= p_countdim(l@, d@));
    r
}

/// The text of `t: DimMin<t, Output = t>`.
fn dimmin_self_pred(t: &Vec<char>) -> (r: Vec<char>)
    ensures
        r@ == p_dimmin_self(t@),
{
    let mut r = bound_text(t, &colon_path(0, "::DimMin<"), t, ", Output = ");
    push_text(&mut r, t);
    push_lit(&mut r, ">");
    assert(r@ =~= p_dimmin_self(t@));
    r
}

/// The text of `<size as ShapeIndex>::Nat: Repeat<e>`.
fn repeat_pred(size: &Vec<char>, e: &Vec<char>) -> (r: Vec<char>)
    ensures
        r@ == p_repeat(size@, e@),
{
    let r = bound_text(&nat_size(size), &colon_path(1, "::Repeat<"), e, ">");
    assert(r@ =~= p_repeat(size@, e@));
    r
}

/// The text of `s: Add<acc>`.
fn add_bound_pred(s: &Vec<char>, acc: &Vec<char>) -> (r: Vec<char>)
    ensures
        r@ == p_add_bound(s@, acc@),
{
    let mut r = copy_text(s);
    push_lit(&mut r, ": ::core::ops::Add<");
    push_text(&mut r, acc);
    push_lit(&mut r, ">");
    assert(r@ =~= p_add_bound(s@, acc@));
    r
}

/// The text of `DimDiff<m, U1>`.
fn dim_diff1_text(m: &Vec<char>) -> (r: Vec<char>)
    ensures
        r@ == t_dim_diff1(m@),
{
    let mut r: Vec<char> = Vec::new();
    push_na(&mut r);
    push_lit(&mut r, "::DimDiff<");
    push_text(&mut r, m);
    push_lit(&mut r, ", ");
    push_na(&mut r);
    push_lit(&mut r, "::U1>");
    assert(r@ =~= t_dim_diff1(m@));
    r
}

/// The text of `d: DimSub<U1>`.
fn dimsub1_pred(d: &Vec<char>) -> (r: Vec<char>)
    ensures
        r@ == p_dimsub1(d@),
{
    let mut r = suffix_bound(d, 0, "::DimSub<");
    push_na(&mut r);
    push_lit(&mut r, "::U1>");
    assert(r@ =~= p_dimsub1(d@));
    r
}

/// The text of `r: DimMin<c>`.
fn dimmin_pred(r: &Vec<char>, c: &Vec<char>) -> (t: Vec<char>)
    ensures
        t@ == p_dimmin(r@, c@),
{
    let t = bound_text(r, &colon_path(0, "::DimMin<"), c, ">");
    assert(t@ =~= p_dimmin(r@, c@));
    t
}

/// The text of `DimMinimum<r, c>`.
fn dim_minimum_text(r: &Vec<char>, c: &Vec<char>) -> (t: Vec<char>)
    ensures
        t@ == t_dim_minimum(r@, c@),
{
    let mut t: Vec<char> = Vec::new();
    push_na(&mut t);
    push_lit(&mut t, "::DimMinimum<");
    push_text(&mut t, &pair_text(r, c));
    push_lit(&mut t, ">");
    assert(t@ =~= t_dim_minimum(r@, c@));
    t
}

/// The Householder-reduction workspace obligations of a `row × col` matrix:
/// for a square shape the reducer `DimSub<U1>` and four scratch allocators;
/// otherwise `row: DimMin<col>`, the reducer on `DimMinimum<row, col>` and
/// the eight allocators of the rectangular reductions.
pub open spec fn decompose_spec(row: Seq<char>, col: Seq<char>, square: bool) -> Seq<Seq<char>> {
    if square {
        seq![
            p_dimsub1(row),
            p_alloc_sum(seq![pair(row, row), row, t_dim_diff1(row), pair(row, t_dim_diff1(row))]),
        ]
    } else {
        let min = t_dim_minimum(row, col);
        seq![
            p_dimmin(row, col),
            p_dimsub1(min),
            p_alloc_sum(seq![pair(row, col), col, row, t_dim_diff1(min), pair(min, col), pair(row, min), min, pair(col, row)]),
        ]
    }
}

/// `t` occurs in `s` as a contiguous piece of text.
pub open spec fn contains_text(s: Seq<char>, t: Seq<char>) -> bool {
    exists|k: int| 0 <= k && k + t.len() <= s.len() && #[trigger] s.subrange(k, k + t.len()) == t
}

/// Some predicate of `preds` is a `DefaultAllocator` bound that includes
/// `Allocator<x>`.
pub open spec fn demands_allocator(preds: Seq<Seq<char>>, x: Seq<char>) -> bool {
    let head = na() + "::DefaultAllocator: "@;
    exists|i: int| 0 <= i < preds.len()
        && (#[trigger] preds[i]).len() >= head.len()
        && preds[i].subrange(0, head.len() as int) == head
        && contains_text(preds[i], alloc_term(x))
}

/// Text found in `s` is still found after more text is appended.
pub proof fn lemma_contains_text_extend(s: Seq<char>, u: Seq<char>, t: Seq<char>)
    requires
        contains_text(s, t),
    ensures
        contains_text(s + u, t),
{
    let k = choose|k: int| 0 <= k && k + t.len() <= s.len() && #[trigger] s.subrange(k, k + t.len()) == t;
    assert((s + u).subrange(k, k + t.len()) =~= s.subrange(k, k + t.len()));
}

/// The last piece of a concatenation is found in it.
pub proof fn lemma_contains_text_suffix(s: Seq<char>, t: Seq<char>)
    ensures
        contains_text(s + t, t),
{
    assert((s + t).subrange(s.len() as int, (s.len() + t.len()) as int) =~= t);
}

/// Every argument list of an allocator sum has its `Allocator<..>` term in it.
pub proof fn lemma_alloc_terms_contain(args: Seq<Seq<char>>, k: int)
    requires
        0 <= k < args.len(),
    ensures
        contains_text(alloc_terms(args), alloc_term(args[k])),
    decreases args.len(),
{
    if args.len() == 1 {
        lemma_contains_text_suffix(seq![], alloc_term(args[0]));
        assert(seq![] + alloc_term(args[0]) =~= alloc_term(args[0]));
    } else if k == args.len() - 1 {
        lemma_contains_text_suffix(alloc_terms(args.drop_last()) + " + "@, alloc_term(args.last()));
    } else {
        lemma_alloc_terms_contain(args.drop_last(), k);
        lemma_contains_text_extend(alloc_terms(args.drop_last()), " + "@ + alloc_term(args.last()), alloc_term(args[k]));
        assert(alloc_terms(args.drop_last()) + (" + "@ + alloc_term(args.last()))
            =~= alloc_terms(args.drop_last()) + " + "@ + alloc_term(args.last()));
    }
}

/// An allocator sum is a `DefaultAllocator` bound that includes each of its
/// terms.
pub proof fn lemma_alloc_sum_demands(preds: Seq<Seq<char>>, i: int, args: Seq<Seq<char>>, k: int)
    requires
        0 <= i < preds.len(),
        preds[i] == p_alloc_sum(args),
        0 <= k < args.len(),
    ensures
        demands_allocator(preds, args[k]),
{
    let head = na() + "::DefaultAllocator: "@;
    lemma_alloc_terms_contain(args, k);
    let t = alloc_term(args[k]);
    let s = alloc_terms(args);
    let j = choose|j: int| 0 <= j && j + t.len() <= s.len() && #[trigger] s.subrange(j, j + t.len()) == t;
    assert((head + s).subrange(head.len() + j, head.len() + j + t.len()) =~= t);
    assert((head + s).subrange(0, head.len() as int) =~= head);
    assert(preds[i] == head + s);
}

/// The workspace obligations of the Householder reductions: a square
/// `d × d` matrix needs `d: DimSub<U1>` and the allocators of `d × d`, `d`,
/// `d - 1` and `d × (d - 1)`; a rectangular `r × c` matrix, with
/// `m = min(r, c)`, needs `r: DimMin<c>`, `m: DimSub<U1>` and the allocators
/// of `r × c`, `c`, `r`, `m - 1`, `m × c`, `r × m`, `m` and `c × r` (the
/// last for its pseudo-inverse and SVD solves).
pub proof fn law_decompose_workspace(row: Seq<char>, col: Seq<char>)
    ensures
        decompose_spec(row, row, true).contains(p_dimsub1(row)),
        demands_allocator(decompose_spec(row, row, true), pair(row, row)),
        demands_allocator(decompose_spec(row, row, true), row),
        demands_allocator(decompose_spec(row, row, true), t_dim_diff1(row)),
        demands_allocator(decompose_spec(row, row, true), pair(row, t_dim_diff1(row))),
        decompose_spec(row, col, false).contains(p_dimmin(row, col)),
        decompose_spec(row, col, false).contains(p_dimsub1(t_dim_minimum(row, col))),
        demands_allocator(decompose_spec(row, col, false), pair(row, col)),
        demands_allocator(decompose_spec(row, col, false), col),
        demands_allocator(decompose_spec(row, col, false), row),
        demands_allocator(decompose_spec(row, col, false), t_dim_diff1(t_dim_minimum(row, col))),
        demands_allocator(decompose_spec(row, col, false), pair(t_dim_minimum(row, col), col)),
        demands_allocator(decompose_spec(row, col, false), pair(row, t_dim_minimum(row, col))),
        demands_allocator(decompose_spec(row, col, false), t_dim_minimum(row, col)),
        demands_allocator(decompose_spec(row, col, false), pair(col, row)),
{
    let sq = decompose_spec(row, row, true);
    let sa = seq![pair(row, row), row, t_dim_diff1(row), pair(row, t_dim_diff1(row))];
    assert(sq[0] == p_dimsub1(row));
    lemma_alloc_sum_demands(sq, 1, sa, 0);
    lemma_alloc_sum_demands(sq, 1, sa, 1);
    lemma_alloc_sum_demands(sq, 1, sa, 2);
    lemma_alloc_sum_demands(sq, 1, sa, 3);
    let m = t_dim_minimum(row, col);
    let re = decompose_spec(row, col, false);
    let ra = seq![pair(row, col), col, row, t_dim_diff1(m), pair(m, col), pair(row, m), m, pair(col, row)];
    assert(re[0] == p_dimmin(row, col));
    assert(re[1] == p_dimsub1(m));
    lemma_alloc_sum_demands(re, 2, ra, 0);
    lemma_alloc_sum_demands(re, 2, ra, 1);
    lemma_alloc_sum_demands(re, 2, ra, 2);
    lemma_alloc_sum_demands(re, 2, ra, 3);
    lemma_alloc_sum_demands(re, 2, ra, 4);
    lemma_alloc_sum_demands(re, 2, ra, 5);
    lemma_alloc_sum_demands(re, 2, ra, 6);
    lemma_alloc_sum_demands(re, 2, ra, 7);
}

/// The Householder-reduction workspace obligations of a `row × col` matrix
/// (see [`decompose_spec`]).
pub fn decompose_preds(row: &Vec<char>, col: &Vec<char>, square: bool) -> (r: Vec<Vec<char>>)
    ensures
        views(r@) == decompose_spec(row@, col@, square),
{
    let mut out: Vec<Vec<char>> = Vec::new();
    if square {
        let d = row;
        let dd = dim_diff1_text(d);
        let mut args: Vec<Vec<char>> = Vec::new();
        args.push(pair_text(d, d));
        args.push(copy_text(d));
        args.push(copy_text(&dd));
        args.push(pair_text(d, &dd));
        assert(views(args@) =~= seq![pair(row@, row@), row@, t_dim_diff1(row@), pair(row@, t_dim_diff1(row@))]);
        out.push(dimsub1_pred(d));
        out.push(alloc_sum_pred(&args));
    } else {
        let min = dim_minimum_text(row, col);
        let dd = dim_diff1_text(&min);
        let mut args: Vec<Vec<char>> = Vec::new();
        args.push(pair_text(row, col));
        args.push(copy_text(col));
        args.push(copy_text(row));
        args.push(dd);
        args.push(pair_text(&min, col));
        args.push(pair_text(row, &min));
        args.push(copy_text(&min));
        args.push(pair_text(col, row));
        let ghost m = t_dim_minimum(row@, col@);
        assert(views(args@) =~= seq![pair(row@, col@), col@, row@, t_dim_diff1(m), pair(m, col@), pair(row@, m), m, pair(col@, row@)]);
        out.push(dimmin_pred(row, col));
        out.push(dimsub1_pred(&min));
        out.push(alloc_sum_pred(&args));
    }
    assert(views(out@) =~= decompose_spec(row@, col@, square));
    out
}

// ---------------------------------------------------------------------------
// Folds over tracks
// ---------------------------------------------------------------------------

/// The right-folded sum of the sizes `parts[j..]`:
/// `DimSum<parts[j], DimSum<…, parts[last]>>` (just `parts[last]` when `j`
/// is the last index): the dimension that `hcat`/`vcat` produce.
pub open spec fn dimsum_from(parts: Seq<Seq<char>>, j: int) -> Seq<char>
    decreases parts.len() - j,
{
    if j >= parts.len() - 1 {
        parts.last()
    } else {
        t_dimsum(parts[j], dimsum_from(parts, j + 1))
    }
}

/// The right-folded concatenation of the lists `lists[j..]`:
/// `Concatenated<lists[j], Concatenated<…, lists[last]>>`.
pub open spec fn suffix_from(lists: Seq<Seq<char>>, j: int) -> Seq<char>
    decreases lists.len() - j,
{
    if j >= lists.len() - 1 {
        lists.last()
    } else {
        t_concatenated(lists[j], suffix_from(lists, j + 1))
    }
}

/// The offset of block `i` along an axis, accumulated over the preceding
/// sizes from `dims[m]` on: `<nat(dims[m]) as Add<…>>::Output`, ending with
/// `nat(dims[i - 1])`.
pub open spec fn offset_acc(dims: Seq<Seq<char>>, i: int, m: int) -> Seq<char>
    decreases i - m,
{
    if m >= i - 1 {
        t_nat_size(dims[i - 1])
    } else {
        t_add_output(t_nat_size(dims[m]), offset_acc(dims, i, m + 1))
    }
}

/// The offset of block `i`: the type-level sum of the sizes before it
/// (`Nat<0>` for the first block).
pub open spec fn offset_spec(dims: Seq<Seq<char>>, i: int) -> Seq<char> {
    if i == 0 { t_nat0() } else { offset_acc(dims, i, 0) }
}

/// The `Add` well-formedness bounds of block `i`'s offset, innermost first.
pub open spec fn offset_extras(dims: Seq<Seq<char>>, i: int) -> Seq<Seq<char>> {
    Seq::new(if i >= 1 { (i - 1) as nat } else { 0 }, |t: int| p_add_bound(t_nat_size(dims[i - 2 - t]), offset_acc(dims, i, i - 1 - t)))
}

/// The right-folded sum of the sizes `parts[from..]` (see [`dimsum_from`]).
pub fn dimsum(parts: &Vec<Vec<char>>, from: usize) -> (r: Vec<char>)
    requires
        from < parts.len(),
    ensures
        r@ == dimsum_from(views(parts@), from as int),
{
    let ghost p = views(parts@);
    let n = parts.len();
    let mut acc = copy_text(&parts[n - 1]);
    let mut j: usize = n - 1;
    while j > from
        invariant
            from <= j < n,
            n == parts.len(),
            p == views(parts@),
            acc@ == dimsum_from(p, j as int),
        decreases j,
    {
        j -= 1;
        acc = dimsum_text(&parts[j], &acc);
    }
    acc
}

/// The right-folded concatenation of `lists[from..]` (see [`suffix_from`]).
pub fn suffix(lists: &Vec<Vec<char>>, from: usize) -> (r: Vec<char>)
    requires
        from < lists.len(),
    ensures
        r@ == suffix_from(views(lists@), from as int),
{
    let ghost l = views(lists@);
    let n = lists.len();
    let mut acc = copy_text(&lists[n - 1]);
    let mut j: usize = n - 1;
    while j > from
        invariant
            from <= j < n,
            n == lists.len(),
            l == views(lists@),
            acc@ == suffix_from(l, j as int),
        decreases j,
    {
        j -= 1;
        acc = concatenated_text(&lists[j], &acc);
    }
    acc
}

/// The offset of block `i` along an axis with sizes `dims`; the `Add`
/// bounds its sum needs are appended to `extra`.
pub fn offset(dims: &Vec<Vec<char>>, i: usize, extra: &mut Vec<Vec<char>>) -> (r: Vec<char>)
    requires
        i < dims.len(),
    ensures
        r@ == offset_spec(views(dims@), i as int),
        views(final(extra)@) == views(old(extra)@) + offset_extras(views(dims@), i as int),
{
    let ghost d = views(dims@);
    let ghost start = views(extra@);
    if i == 0 {
        let mut r: Vec<char> = Vec::new();
        push_wa(&mut r);
        push_lit(&mut r, "::Nat<0>");
        assert(offset_extras(d, 0) =~= seq![]);
        assert(views(extra@) =~= start + offset_extras(d, 0));
        return r;
    }
    let mut acc = nat_size(&dims[i - 1]);
    let mut m: usize = i - 1;
    assert(views(extra@) =~= start + offset_extras(d, i as int).subrange(0, 0));
    while m > 0
        invariant
            0 <= m <= i - 1,
            i < dims.len(),
            d == views(dims@),
            acc@ == offset_acc(d, i as int, m as int),
            views(extra@) == start + offset_extras(d, i as int).subrange(0, (i - 1 - m) as int),
        decreases m,
    {
        m -= 1;
        let s = nat_size(&dims[m]);
        let ghost prev = extra@;
        extra.push(add_bound_pred(&s, &acc));
        proof {
            let t = (i - 2 - m) as int;
            assert(offset_extras(d, i as int)[t] == p_add_bound(t_nat_size(d[m as int]), offset_acc(d, i as int, m + 1)));
            assert(views(extra@) =~= views(prev).push(offset_extras(d, i as int)[t]));
            assert(views(extra@) =~= start + offset_extras(d, i as int).subrange(0, (i - 1 - m) as int));
        }
        acc = add_output_text(&s, &acc);
    }
    assert(offset_extras(d, i as int).subrange(0, (i - 1) as int) =~= offset_extras(d, i as int));
    acc
}

/// The obligations slicing block `i` back out of the assembled list: for the
/// first block `whole: Take<size_0, Out = lists[0]>`; for a later one the
/// `Add` bounds of its offset, `whole: Drop<offset_i, Out = suffix_i>` and
/// `suffix_i: Take<size_i, Out = lists[i]>`.
pub open spec fn block_preds(dims: Seq<Seq<char>>, lists: Seq<Seq<char>>, i: int) -> Seq<Seq<char>> {
    let whole = suffix_from(lists, 0);
    if i == 0 {
        seq![p_take(whole, t_nat_size(dims[0]), lists[0])]
    } else {
        offset_extras(dims, i) + seq![
            p_drop(whole, offset_spec(dims, i), suffix_from(lists, i)),
            p_take(suffix_from(lists, i), t_nat_size(dims[i]), lists[i]),
        ]
    }
}

/// The slicing obligations of the first `n` blocks.
pub open spec fn disassembly(dims: Seq<Seq<char>>, lists: Seq<Seq<char>>, n: int) -> Seq<Seq<char>>
    decreases n,
{
    if n <= 0 {
        seq![]
    } else {
        disassembly(dims, lists, n - 1) + block_preds(dims, lists, n - 1)
    }
}

/// The partition obligations of one axis with block sizes `dims` and the
/// sublists `lists` occupying its tracks: every list (and the assembled one)
/// is a `DimList`; each list concatenates onto the suffix after it; and each
/// is recovered by dropping to its offset and taking its size.
pub open spec fn partition_spec(dims: Seq<Seq<char>>, lists: Seq<Seq<char>>) -> Seq<Seq<char>> {
    let k = lists.len() as int;
    seq![p_dimlist(suffix_from(lists, 0))]
        + lists.map_values(|l: Seq<char>| p_dimlist(l))
        + Seq::new((k - 1) as nat, |i: int| p_concat(lists[i], suffix_from(lists, i + 1)))
        + disassembly(dims, lists, k)
}

/// The partition obligations of one axis (see [`partition_spec`]).
pub fn partition_preds(dims: &Vec<Vec<char>>, lists: &Vec<Vec<char>>) -> (r: Vec<Vec<char>>)
    requires
        lists.len() > 0,
        dims.len() >= lists.len(),
    ensures
        views(r@) == partition_spec(views(dims@), views(lists@)),
{
    let ghost d = views(dims@);
    let ghost l = views(lists@);
    let k = lists.len();
    let mut out: Vec<Vec<char>> = Vec::new();
    let whole = suffix(lists, 0);
    out.push(dimlist_pred(&whole));
    let ghost sec1 = seq![p_dimlist(suffix_from(l, 0))];
    assert(views(out@) =~= sec1);
    let mut i: usize = 0;
    while i < k
        invariant
            i <= k,
            k == lists.len(),
            l == views(lists@),
            views(out@) == sec1 + l.map_values(|x: Seq<char>| p_dimlist(x)).subrange(0, i as int),
        decreases k - i,
    {
        let ghost prev = out@;
        out.push(dimlist_pred(&lists[i]));
        assert(views(out@) =~= views(prev).push(p_dimlist(l[i as int])));
        i += 1;
        assert(views(out@) =~= sec1 + l.map_values(|x: Seq<char>| p_dimlist(x)).subrange(0, i as int));
    }
    let ghost sec2 = sec1 + l.map_values(|x: Seq<char>| p_dimlist(x));
    assert(l.map_values(|x: Seq<char>| p_dimlist(x)).subrange(0, k as int) =~= l.map_values(|x: Seq<char>| p_dimlist(x)));
    let ghost concats = Seq::new((k - 1) as nat, |i: int| p_concat(l[i], suffix_from(l, i + 1)));
    let mut i: usize = 0;
    while i + 1 < k
        invariant
            i + 1 <= k,
            k == lists.len(),
            l == views(lists@),
            concats == Seq::new((k - 1) as nat, |i: int| p_concat(l[i], suffix_from(l, i + 1))),
            views(out@) == sec2 + concats.subrange(0, i as int),
        decreases k - i,
    {
        let suf = suffix(lists, i + 1);
        let ghost prev = out@;
        out.push(concat_pred(&lists[i], &suf));
        assert(views(out@) =~= views(prev).push(concats[i as int]));
        i += 1;
        assert(views(out@) =~= sec2 + concats.subrange(0, i as int));
    }
    let ghost sec3 = sec2 + concats;
    assert(concats.subrange(0, (k - 1) as int) =~= concats);
    let mut i: usize = 0;
    while i < k
        invariant
            i <= k,
            k == lists.len(),
            dims.len() >= k,
            l == views(lists@),
            d == views(dims@),
            whole@ == suffix_from(l, 0),
            views(out@) == sec3 + disassembly(d, l, i as int),
        decreases k - i,
    {
        let ghost before = views(out@);
        let s_i = nat_size(&dims[i]);
        if i == 0 {
            out.push(take_pred(&whole, &s_i, &lists[0]));
            assert(views(out@) =~= before + block_preds(d, l, 0));
        } else {
            let suf_i = suffix(lists, i);
            let mut extra: Vec<Vec<char>> = Vec::new();
            let off_i = offset(dims, i, &mut extra);
            assert(views(extra@) =~= offset_extras(d, i as int));
            push_all(&mut out, &extra);
            let ghost mid = out@;
            out.push(drop_pred(&whole, &off_i, &suf_i));
            out.push(take_pred(&suf_i, &s_i, &lists[i]));
            assert(views(out@) =~= views(mid) + seq![p_drop(suffix_from(l, 0), offset_spec(d, i as int), suffix_from(l, i as int)),
                p_take(suffix_from(l, i as int), t_nat_size(d[i as int]), l[i as int])]);
            assert(views(out@) =~= before + block_preds(d, l, i as int));
        }
        i += 1;
        assert(views(out@) =~= sec3 + disassembly(d, l, i as int));
    }
    out
}

// ---------------------------------------------------------------------------
// Block grids
// ---------------------------------------------------------------------------

/// One block grid: the block sizes of its row tracks and column tracks (as
/// normalized type text), the unit sublist occupying each track when they are
/// named, and whether the decomposition workspace is asked for.
pub struct Shape {
    pub rows: Vec<Vec<char>>,
    pub cols: Vec<Vec<char>>,
    pub row_dims: Option<Vec<Vec<char>>>,
    pub col_dims: Option<Vec<Vec<char>>>,
    pub decompose: bool,
}

/// The attribute of one or more block grids; `uniform` targets uniform-unit
/// assemblies.
pub struct Shapes {
    pub uniform: bool,
    pub shapes: Vec<Shape>,
}

/// The sublists of an axis, when named, pair one list with each track.
pub open spec fn tracks_ok(sizes: Seq<Vec<char>>, lists: Option<Vec<Vec<char>>>) -> bool {
    lists matches Some(l) ==> l.len() == sizes.len() && l.len() > 0
}

/// The grid's row tracks and column tracks are the same sequence of sizes,
/// so the assembled matrix is square.
pub open spec fn square_spec(s: Shape) -> bool {
    &&& s.rows.len() == s.cols.len()
    &&& forall|i: int| 0 <= i < s.rows.len() ==> #[trigger] s.rows@[i]@ == s.cols@[i]@
}

/// A grid whose obligations can be formed: named sublists pair up with the
/// tracks, and a total size is only asked for of a non-empty axis.
pub open spec fn shape_ok(s: Shape) -> bool {
    &&& tracks_ok(s.rows@, s.row_dims)
    &&& tracks_ok(s.cols@, s.col_dims)
    &&& square_spec(s) ==> s.cols.len() > 0
    &&& s.decompose ==> s.rows.len() > 0 && s.cols.len() > 0
}

/// `a: DimAdd<suffix sum after it>` for every track but the last.
pub open spec fn dimadd_spec(p: Seq<Seq<char>>) -> Seq<Seq<char>> {
    Seq::new(if p.len() >= 1 { (p.len() - 1) as nat } else { 0 }, |j: int| p_dimadd(p[j], dimsum_from(p, j + 1)))
}

/// The allocators of the `hcat`s of the first `n` block rows: each row
/// `R_i` allocates `R_i × W_j` for every column suffix but the last.
pub open spec fn alloc_rows_spec(r: Seq<Seq<char>>, c: Seq<Seq<char>>, n: int) -> Seq<Seq<char>>
    decreases n,
{
    if n <= 0 {
        seq![]
    } else {
        alloc_rows_spec(r, c, n - 1) + Seq::new(if c.len() >= 1 { (c.len() - 1) as nat } else { 0 }, |j: int| p_alloc(pair(r[n - 1], dimsum_from(c, j))))
    }
}

/// The allocators of the `vcat`s: `V_i × W_0` for every row suffix but the
/// last (none without columns).
pub open spec fn alloc_vcat_spec(r: Seq<Seq<char>>, c: Seq<Seq<char>>) -> Seq<Seq<char>> {
    if c.len() >= 1 {
        Seq::new(if r.len() >= 1 { (r.len() - 1) as nat } else { 0 }, |i: int| p_alloc(pair(dimsum_from(r, i), dimsum_from(c, 0))))
    } else {
        seq![]
    }
}

/// The `CountDim` ties of a named axis, one per track.
pub open spec fn ties_spec(sizes: Seq<Seq<char>>, lists: Option<Vec<Vec<char>>>) -> Seq<Seq<char>> {
    match lists {
        Some(l) => Seq::new(views(l@).len(), |i: int| p_countdim(views(l@)[i], sizes[i])),
        None => seq![],
    }
}

/// The partition obligations of a named axis.
pub open spec fn partition_opt(sizes: Seq<Seq<char>>, lists: Option<Vec<Vec<char>>>) -> Seq<Seq<char>> {
    match lists {
        Some(l) => partition_spec(sizes, views(l@)),
        None => seq![],
    }
}

/// The obligations of one block grid, in order: the `DimAdd`s and
/// allocators of its right-associative assembly; unless uniform, the
/// `ShapeIndex` of each distinct size, the partition obligations of each
/// named axis and the `CountDim` ties (each stated once); when square, the
/// square-operation bounds of the total size; and, when asked for, the
/// decomposition workspace of the assembled matrix.
pub open spec fn predicates_spec(s: Shape, uniform: bool) -> Seq<Seq<char>> {
    let r = views(s.rows@);
    let c = views(s.cols@);
    let assembly = dimadd_spec(c) + dimadd_spec(r) + alloc_rows_spec(r, c, r.len() as int) + alloc_vcat_spec(r, c);
    let mixed = if uniform {
        seq![]
    } else {
        dedup_onto(seq![], (r + c).map_values(|d: Seq<char>| p_shape_index(d)))
            + partition_opt(r, s.row_dims) + partition_opt(c, s.col_dims)
            + dedup_onto(seq![], ties_spec(r, s.row_dims) + ties_spec(c, s.col_dims))
    };
    let square = if square_spec(s) {
        seq![p_alloc(dimsum_from(c, 0)), p_dimmin_self(dimsum_from(c, 0))]
    } else {
        seq![]
    };
    let decompose = if s.decompose {
        decompose_spec(dimsum_from(r, 0), dimsum_from(c, 0), square_spec(s))
    } else {
        seq![]
    };
    assembly + mixed + square + decompose
}

/// The `DimAdd` obligations of an axis (see [`dimadd_spec`]).
fn dimadd_section(p: &Vec<Vec<char>>) -> (r: Vec<Vec<char>>)
    ensures
        views(r@) == dimadd_spec(views(p@)),
{
    let ghost v = views(p@);
    let mut out: Vec<Vec<char>> = Vec::new();
    let mut j: usize = 0;
    while j + 1 < p.len()
        invariant
            v == views(p@),
            j + 1 <= p.len() || p.len() == 0,
            p.len() == 0 ==> j == 0,
            views(out@) == dimadd_spec(v).subrange(0, j as int),
        decreases p.len() - j,
    {
        let w = dimsum(p, j + 1);
        let ghost prev = out@;
        out.push(dimadd_pred(&p[j], &w));
        assert(views(out@) =~= views(prev).push(dimadd_spec(v)[j as int]));
        j += 1;
        assert(views(out@) =~= dimadd_spec(v).subrange(0, j as int));
    }
    assert(dimadd_spec(v).subrange(0, j as int) =~= dimadd_spec(v));
    out
}

/// The `hcat` allocators (see [`alloc_rows_spec`]).
fn alloc_rows_section(rows: &Vec<Vec<char>>, cols: &Vec<Vec<char>>) -> (r: Vec<Vec<char>>)
    ensures
        views(r@) == alloc_rows_spec(views(rows@), views(cols@), rows.len() as int),
{
    let ghost rv = views(rows@);
    let ghost cv = views(cols@);
    let ghost m: nat = if cv.len() >= 1 { (cv.len() - 1) as nat } else { 0 };
    let mut out: Vec<Vec<char>> = Vec::new();
    let mut i: usize = 0;
    while i < rows.len()
        invariant
            i <= rows.len(),
            rv == views(rows@),
            cv == views(cols@),
            m == (if cv.len() >= 1 { (cv.len() - 1) as nat } else { 0 }),
            views(out@) == alloc_rows_spec(rv, cv, i as int),
        decreases rows.len() - i,
    {
        let ghost base = views(out@);
        let ghost row_seq = Seq::new(m, |j: int| p_alloc(pair(rv[i as int], dimsum_from(cv, j))));
        let mut j: usize = 0;
        while j + 1 < cols.len()
            invariant
                i < rows.len(),
                rv == views(rows@),
                cv == views(cols@),
                m == (if cv.len() >= 1 { (cv.len() - 1) as nat } else { 0 }),
                row_seq == Seq::new(m, |j: int| p_alloc(pair(rv[i as int], dimsum_from(cv, j)))),
                cols.len() == 0 ==> j == 0,
                j <= m,
                views(out@) == base + row_seq.subrange(0, j as int),
            decreases cols.len() - j,
        {
            let w = dimsum(cols, j);
            let ghost prev = out@;
            out.push(alloc_pred(&pair_text(&rows[i], &w)));
            assert(views(out@) =~= views(prev).push(row_seq[j as int]));
            j += 1;
            assert(views(out@) =~= base + row_seq.subrange(0, j as int));
        }
        assert(row_seq.subrange(0, j as int) =~= row_seq);
        i += 1;
        assert(views(out@) =~= alloc_rows_spec(rv, cv, i as int));
    }
    out
}

/// The `vcat` allocators (see [`alloc_vcat_spec`]).
fn alloc_vcat_section(rows: &Vec<Vec<char>>, cols: &Vec<Vec<char>>) -> (r: Vec<Vec<char>>)
    ensures
        views(r@) == alloc_vcat_spec(views(rows@), views(cols@)),
{
    let ghost rv = views(rows@);
    let ghost cv = views(cols@);
    let mut out: Vec<Vec<char>> = Vec::new();
    if cols.len() >= 1 {
        let total_c = dimsum(cols, 0);
        let mut i: usize = 0;
        while i + 1 < rows.len()
            invariant
                rv == views(rows@),
                cv == views(cols@),
                cols.len() >= 1,
                total_c@ == dimsum_from(cv, 0),
                rows.len() == 0 ==> i == 0,
                i + 1 <= rows.len() || rows.len() == 0,
                views(out@) == alloc_vcat_spec(rv, cv).subrange(0, i as int),
            decreases rows.len() - i,
        {
            let v = dimsum(rows, i);
            let ghost prev = out@;
            out.push(alloc_pred(&pair_text(&v, &total_c)));
            assert(views(out@) =~= views(prev).push(alloc_vcat_spec(rv, cv)[i as int]));
            i += 1;
            assert(views(out@) =~= alloc_vcat_spec(rv, cv).subrange(0, i as int));
        }
        assert(alloc_vcat_spec(rv, cv).subrange(0, i as int) =~= alloc_vcat_spec(rv, cv));
    } else {
        assert(views(out@) =~= alloc_vcat_spec(rv, cv));
    }
    out
}

/// Applies a predicate to every item of a list.
fn map_shape_index(p: &Vec<Vec<char>>) -> (r: Vec<Vec<char>>)
    ensures
        views(r@) == views(p@).map_values(|d: Seq<char>| p_shape_index(d)),
{
    let ghost v = views(p@);
    let mut out: Vec<Vec<char>> = Vec::new();
    let mut i: usize = 0;
    while i < p.len()
        invariant
            i <= p.len(),
            v == views(p@),
            views(out@) == v.map_values(|d: Seq<char>| p_shape_index(d)).subrange(0, i as int),
        decreases p.len() - i,
    {
        let ghost prev = out@;
        out.push(shape_index_pred(&p[i]));
        assert(views(out@) =~= views(prev).push(p_shape_index(v[i as int])));
        i += 1;
        assert(views(out@) =~= v.map_values(|d: Seq<char>| p_shape_index(d)).subrange(0, i as int));
    }
    assert(v.map_values(|d: Seq<char>| p_shape_index(d)).subrange(0, p.len() as int) =~= v.map_values(|d: Seq<char>| p_shape_index(d)));
    out
}

/// The `CountDim` ties of an axis (see [`ties_spec`]).
fn ties_section(sizes: &Vec<Vec<char>>, lists: &Option<Vec<Vec<char>>>) -> (r: Vec<Vec<char>>)
    requires
        tracks_ok(sizes@, *lists),
    ensures
        views(r@) == ties_spec(views(sizes@), *lists),
{
    let mut out: Vec<Vec<char>> = Vec::new();
    match lists {
        Some(l) => {
            let ghost t = ties_spec(views(sizes@), *lists);
            let mut i: usize = 0;
            while i < l.len()
                invariant
                    i <= l.len(),
                    l.len() == sizes.len(),
                    *lists == Some(*l),
                    t == ties_spec(views(sizes@), *lists),
                    views(out@) == t.subrange(0, i as int),
                decreases l.len() - i,
            {
                let ghost prev = out@;
                out.push(countdim_pred(&l[i], &sizes[i]));
                assert(views(out@) =~= views(prev).push(t[i as int]));
                i += 1;
                assert(views(out@) =~= t.subrange(0, i as int));
            }
            assert(t.subrange(0, l.len() as int) =~= t);
        },
        None => {
            assert(views(out@) =~= ties_spec(views(sizes@), *lists));
        },
    }
    out
}

/// Whether the grid's row tracks and column tracks are the same sizes.
fn is_square_grid(s: &Shape) -> (r: bool)
    ensures
        r == square_spec(*s),
{
    if s.rows.len() != s.cols.len() {
        return false;
    }
    let mut i: usize = 0;
    while i < s.rows.len()
        invariant
            i <= s.rows.len(),
            s.rows.len() == s.cols.len(),
            forall|k: int| 0 <= k < i ==> #[trigger] s.rows@[k]@ == s.cols@[k]@,
        decreases s.rows.len() - i,
    {
        if !text_eq(&s.rows[i], &s.cols[i]) {
            return false;
        }
        i += 1;
    }
    true
}

/// The obligations of one block grid (see [`predicates_spec`]).
pub fn predicates(s: &Shape, uniform: bool) -> (r: Vec<Vec<char>>)
    requires
        shape_ok(*s),
    ensures
        views(r@) == predicates_spec(*s, uniform),
{
    let ghost rv = views(s.rows@);
    let ghost cv = views(s.cols@);
    let mut out: Vec<Vec<char>> = Vec::new();
    push_all(&mut out, &dimadd_section(&s.cols));
    push_all(&mut out, &dimadd_section(&s.rows));
    push_all(&mut out, &alloc_rows_section(&s.rows, &s.cols));
    push_all(&mut out, &alloc_vcat_section(&s.rows, &s.cols));
    let ghost assembly = views(out@);
    assert(assembly =~= dimadd_spec(cv) + dimadd_spec(rv) + alloc_rows_spec(rv, cv, rv.len() as int) + alloc_vcat_spec(rv, cv));
    if !uniform {
        let mut dims: Vec<Vec<char>> = Vec::new();
        push_all(&mut dims, &s.rows);
        push_all(&mut dims, &s.cols);
        let indexed = map_shape_index(&dims);
        let mut seen: Vec<Vec<char>> = Vec::new();
        assert(views(seen@) =~= seq![]);
        push_all_unique(&mut seen, &indexed);
        assert(views(dims@) =~= rv + cv);
        assert(views(indexed@) == (rv + cv).map_values(|d: Seq<char>| p_shape_index(d)));
        let ghost sec_index = views(seen@);
        assert(sec_index == dedup_onto(seq![], (rv + cv).map_values(|d: Seq<char>| p_shape_index(d))));
        push_all(&mut out, &seen);
        let ghost a1 = views(out@);
        match &s.row_dims {
            Some(l) => push_all(&mut out, &partition_preds(&s.rows, l)),
            None => {},
        }
        assert(views(out@) =~= a1 + partition_opt(rv, s.row_dims));
        let ghost a2 = views(out@);
        match &s.col_dims {
            Some(l) => push_all(&mut out, &partition_preds(&s.cols, l)),
            None => {},
        }
        assert(views(out@) =~= a2 + partition_opt(cv, s.col_dims));
        let ghost a3m = views(out@);
        let mut ties = ties_section(&s.rows, &s.row_dims);
        let ghost t1 = views(ties@);
        push_all(&mut ties, &ties_section(&s.cols, &s.col_dims));
        assert(views(ties@) == ties_spec(rv, s.row_dims) + ties_spec(cv, s.col_dims));
        let mut tied: Vec<Vec<char>> = Vec::new();
        assert(views(tied@) =~= seq![]);
        push_all_unique(&mut tied, &ties);
        push_all(&mut out, &tied);
        assert(views(out@) =~= assembly + (sec_index + partition_opt(rv, s.row_dims) + partition_opt(cv, s.col_dims)
            + dedup_onto(seq![], ties_spec(rv, s.row_dims) + ties_spec(cv, s.col_dims))));
    } else {
        assert(views(out@) =~= assembly + seq![]);
    }
    let ghost a3 = views(out@);
    let square = is_square_grid(s);
    if square {
        let total = dimsum(&s.cols, 0);
        out.push(alloc_pred(&total));
        out.push(dimmin_self_pred(&total));
        assert(views(out@) =~= a3 + seq![p_alloc(dimsum_from(cv, 0)), p_dimmin_self(dimsum_from(cv, 0))]);
    } else {
        assert(views(out@) =~= a3 + seq![]);
    }
    let ghost a4 = views(out@);
    if s.decompose {
        let v0 = dimsum(&s.rows, 0);
        let w0 = dimsum(&s.cols, 0);
        push_all(&mut out, &decompose_preds(&v0, &w0, square));
    } else {
        assert(views(out@) =~= a4 + seq![]);
    }
    assert(views(out@) =~= predicates_spec(*s, uniform));
    out
}

/// The obligations of several grids, each stated once (the first occurrence
/// wins), grid by grid.
pub open spec fn all_predicates_spec(shapes: Seq<Shape>, uniform: bool, n: int) -> Seq<Seq<char>>
    decreases n,
{
    if n <= 0 {
        seq![]
    } else {
        dedup_onto(all_predicates_spec(shapes, uniform, n - 1), predicates_spec(shapes[n - 1], uniform))
    }
}

/// The union of every grid's obligations, deduplicated across grids.
pub fn all_predicates(shapes: &Vec<Shape>, uniform: bool) -> (r: Vec<Vec<char>>)
    requires
        forall|i: int| 0 <= i < shapes.len() ==> shape_ok(#[trigger] shapes@[i]),
    ensures
        views(r@) == all_predicates_spec(shapes@, uniform, shapes.len() as int),
{
    let mut out: Vec<Vec<char>> = Vec::new();
    let mut i: usize = 0;
    while i < shapes.len()
        invariant
            i <= shapes.len(),
            forall|k: int| 0 <= k < shapes.len() ==> shape_ok(#[trigger] shapes@[k]),
            views(out@) == all_predicates_spec(shapes@, uniform, i as int),
        decreases shapes.len() - i,
    {
        let ps = predicates(&shapes[i], uniform);
        push_all_unique(&mut out, &ps);
        i += 1;
    }
    out
}

// ---------------------------------------------------------------------------
// Declared matrices
// ---------------------------------------------------------------------------

/// The unit list on one matrix axis: a written-out list type, or the
/// uniform spelling `[Element]` (`size` copies of `Element`).
pub enum AxisDim {
    List(Vec<char>),
    Uniform(Vec<char>),
}

/// One declared matrix: its size pair (normalized type text), the unit list
/// on each axis when named, and whether its decomposition workspace is asked
/// for.
pub struct MatrixShape {
    pub row: Vec<char>,
    pub col: Vec<char>,
    pub row_dim: Option<AxisDim>,
    pub col_dim: Option<AxisDim>,
    pub decompose: bool,
}

/// The declared matrices of an item; `uniform` targets uniform-unit ones.
pub struct MatrixSpec {
    pub uniform: bool,
    pub shapes: Vec<MatrixShape>,
}

/// Classifies an axis's unit list: the element of a slice type `[Element]`
/// when the type is one, else the written-out list.
pub fn axis_dim(ty: Vec<char>, slice_element: Option<Vec<char>>) -> (r: AxisDim)
    ensures
        slice_element matches Some(e) ==> r == AxisDim::Uniform(e),
        slice_element is None ==> r == AxisDim::List(ty),
{
    match slice_element {
        Some(e) => AxisDim::Uniform(e),
        None => AxisDim::List(ty),
    }
}

/// The sizes used as both axes of some matrix among the first `n`, each
/// once, in order of first use.
pub open spec fn square_keys(shapes: Seq<MatrixShape>, n: int) -> Seq<Seq<char>>
    decreases n,
{
    if n <= 0 {
        seq![]
    } else {
        let prev = square_keys(shapes, n - 1);
        let s = shapes[n - 1];
        if s.row@ == s.col@ { push_new(prev, s.row@) } else { prev }
    }
}

/// The sizes of the first `n` matrices, row then column.
pub open spec fn sizes_of(shapes: Seq<MatrixShape>, n: int) -> Seq<Seq<char>>
    decreases n,
{
    if n <= 0 {
        seq![]
    } else {
        sizes_of(shapes, n - 1) + seq![shapes[n - 1].row@, shapes[n - 1].col@]
    }
}

/// The list obligation of one axis: `DimList` for a written-out list, the
/// `Repeat` constructor bound for a uniform `[Element]` axis, nothing when
/// unnamed.
pub open spec fn axis_pred(size: Seq<char>, dim: Option<AxisDim>) -> Seq<Seq<char>> {
    match dim {
        Some(AxisDim::List(l)) => seq![p_dimlist(l@)],
        Some(AxisDim::Uniform(e)) => seq![p_repeat(size, e@)],
        None => seq![],
    }
}

/// The list obligations of the first `n` matrices, row axis then column
/// axis.
pub open spec fn list_preds(shapes: Seq<MatrixShape>, n: int) -> Seq<Seq<char>>
    decreases n,
{
    if n <= 0 {
        seq![]
    } else {
        let s = shapes[n - 1];
        list_preds(shapes, n - 1) + axis_pred(s.row@, s.row_dim) + axis_pred(s.col@, s.col_dim)
    }
}

/// The decomposition workspaces of the first `n` matrices that ask for one;
/// a matrix whose row size is square anywhere gets the square workspace.
pub open spec fn workspace_preds(shapes: Seq<MatrixShape>, n: int, squares: Seq<Seq<char>>) -> Seq<Seq<char>>
    decreases n,
{
    if n <= 0 {
        seq![]
    } else {
        let s = shapes[n - 1];
        workspace_preds(shapes, n - 1, squares)
            + if s.decompose { decompose_spec(s.row@, s.col@, squares.contains(s.row@)) } else { seq![] }
    }
}

/// The obligations of a set of declared matrices, in order: `SquareDim` for
/// each size used as both axes of some matrix; unless uniform, `ShapeIndex`
/// for each other size; the list obligation of each named axis; and the
/// decomposition workspace of each matrix that asks for it. Each fact is
/// stated once.
pub open spec fn matrix_predicates_spec(spec: MatrixSpec) -> Seq<Seq<char>> {
    let shapes = spec.shapes@;
    let n = shapes.len() as int;
    let squares = square_keys(shapes, n);
    let rect = if spec.uniform {
        seq![]
    } else {
        let keys = dedup_onto(squares, sizes_of(shapes, n));
        keys.subrange(squares.len() as int, keys.len() as int).map_values(|d: Seq<char>| p_shape_index(d))
    };
    squares.map_values(|d: Seq<char>| p_squaredim(d)) + rect
        + dedup_onto(seq![], list_preds(shapes, n))
        + dedup_onto(seq![], workspace_preds(shapes, n, squares))
}

/// Deduplication keeps what was already there as a prefix.
proof fn lemma_dedup_onto_prefix(acc: Seq<Seq<char>>, items: Seq<Seq<char>>)
    ensures
        dedup_onto(acc, items).len() >= acc.len(),
        dedup_onto(acc, items).subrange(0, acc.len() as int) == acc,
    decreases items.len(),
{
    if items.len() > 0 {
        lemma_dedup_onto_prefix(acc, items.drop_last());
        let d = dedup_onto(acc, items.drop_last());
        assert(push_new(d, items.last()).subrange(0, acc.len() as int) =~= d.subrange(0, acc.len() as int));
    }
}

/// Copies a list of texts.
fn copy_texts(v: &Vec<Vec<char>>) -> (r: Vec<Vec<char>>)
    ensures
        views(r@) == views(v@),
{
    let mut r: Vec<Vec<char>> = Vec::new();
    push_all(&mut r, v);
    assert(views(r@) =~= views(v@));
    r
}

/// The sizes used as both axes (see [`square_keys`]).
fn square_sizes(shapes: &Vec<MatrixShape>) -> (r: Vec<Vec<char>>)
    ensures
        views(r@) == square_keys(shapes@, shapes.len() as int),
{
    let mut out: Vec<Vec<char>> = Vec::new();
    let mut i: usize = 0;
    while i < shapes.len()
        invariant
            i <= shapes.len(),
            views(out@) == square_keys(shapes@, i as int),
        decreases shapes.len() - i,
    {
        if text_eq(&shapes[i].row, &shapes[i].col) {
            push_unique(&mut out, copy_text(&shapes[i].row));
        }
        i += 1;
    }
    out
}

/// All sizes, row then column per matrix (see [`sizes_of`]).
fn all_sizes(shapes: &Vec<MatrixShape>) -> (r: Vec<Vec<char>>)
    ensures
        views(r@) == sizes_of(shapes@, shapes.len() as int),
{
    let mut out: Vec<Vec<char>> = Vec::new();
    let mut i: usize = 0;
    while i < shapes.len()
        invariant
            i <= shapes.len(),
            views(out@) == sizes_of(shapes@, i as int),
        decreases shapes.len() - i,
    {
        let ghost prev = views(out@);
        out.push(copy_text(&shapes[i].row));
        out.push(copy_text(&shapes[i].col));
        assert(views(out@) =~= prev + seq![shapes@[i as int].row@, shapes@[i as int].col@]);
        i += 1;
    }
    out
}

/// Appends the list obligation of one axis (see [`axis_pred`]).
fn push_axis_pred(out: &mut Vec<Vec<char>>, size: &Vec<char>, dim: &Option<AxisDim>)
    ensures
        views(final(out)@) == views(old(out)@) + axis_pred(size@, *dim),
{
    let ghost start = views(out@);
    match dim {
        Some(AxisDim::List(l)) => out.push(dimlist_pred(l)),
        Some(AxisDim::Uniform(e)) => out.push(repeat_pred(size, e)),
        None => {},
    }
    assert(views(out@) =~= start + axis_pred(size@, *dim));
}

/// The obligations of a set of declared matrices (see
/// [`matrix_predicates_spec`]).
pub fn matrix_predicates(spec: &MatrixSpec) -> (r: Vec<Vec<char>>)
    ensures
        views(r@) == matrix_predicates_spec(*spec),
{
    let shapes = &spec.shapes;
    let ghost sh = shapes@;
    let ghost n = shapes.len() as int;
    let squares = square_sizes(shapes);
    let mut out: Vec<Vec<char>> = Vec::new();
    let mut i: usize = 0;
    while i < squares.len()
        invariant
            i <= squares.len(),
            views(out@) == views(squares@).map_values(|d: Seq<char>| p_squaredim(d)).subrange(0, i as int),
        decreases squares.len() - i,
    {
        let ghost prev = out@;
        out.push(squaredim_pred(&squares[i]));
        assert(views(out@) =~= views(prev).push(p_squaredim(views(squares@)[i as int])));
        i += 1;
        assert(views(out@) =~= views(squares@).map_values(|d: Seq<char>| p_squaredim(d)).subrange(0, i as int));
    }
    assert(views(squares@).map_values(|d: Seq<char>| p_squaredim(d)).subrange(0, squares.len() as int)
        =~= views(squares@).map_values(|d: Seq<char>| p_squaredim(d)));
    let ghost a1 = views(out@);
    if !spec.uniform {
        let mut seen = copy_texts(&squares);
        push_all_unique(&mut seen, &all_sizes(shapes));
        proof {
            lemma_dedup_onto_prefix(views(squares@), sizes_of(sh, n));
        }
        let ghost keys = views(seen@);
        let ghost start = a1;
        let mut k: usize = squares.len();
        while k < seen.len()
            invariant
                squares.len() <= k <= seen.len(),
                keys == views(seen@),
                views(out@) == start + keys.subrange(squares.len() as int, k as int).map_values(|d: Seq<char>| p_shape_index(d)),
            decreases seen.len() - k,
        {
            let ghost prev = out@;
            out.push(shape_index_pred(&seen[k]));
            assert(views(out@) =~= views(prev).push(p_shape_index(keys[k as int])));
            k += 1;
            assert(views(out@) =~= start + keys.subrange(squares.len() as int, k as int).map_values(|d: Seq<char>| p_shape_index(d)));
        }
    } else {
        assert(views(out@) =~= a1 + seq![]);
    }
    let ghost a2 = views(out@);
    let mut lists: Vec<Vec<char>> = Vec::new();
    let mut i: usize = 0;
    while i < shapes.len()
        invariant
            i <= shapes.len(),
            sh == shapes@,
            views(lists@) == list_preds(sh, i as int),
        decreases shapes.len() - i,
    {
        push_axis_pred(&mut lists, &shapes[i].row, &shapes[i].row_dim);
        push_axis_pred(&mut lists, &shapes[i].col, &shapes[i].col_dim);
        i += 1;
    }
    let mut listed: Vec<Vec<char>> = Vec::new();
    assert(views(listed@) =~= seq![]);
    push_all_unique(&mut listed, &lists);
    push_all(&mut out, &listed);
    let ghost a3 = views(out@);
    let mut work: Vec<Vec<char>> = Vec::new();
    let mut i: usize = 0;
    while i < shapes.len()
        invariant
            i <= shapes.len(),
            sh == shapes@,
            views(squares@) == square_keys(sh, n),
            n == shapes.len(),
            views(work@) == workspace_preds(sh, i as int, views(squares@)),
        decreases shapes.len() - i,
    {
        if shapes[i].decompose {
            let sq = holds(&squares, &shapes[i].row);
            push_all(&mut work, &decompose_preds(&shapes[i].row, &shapes[i].col, sq));
        } else {
            assert(views(work@) =~= workspace_preds(sh, i as int, views(squares@)) + seq![]);
        }
        i += 1;
    }
    let mut worked: Vec<Vec<char>> = Vec::new();
    assert(views(worked@) =~= seq![]);
    push_all_unique(&mut worked, &work);
    push_all(&mut out, &worked);
    assert(views(out@) =~= matrix_predicates_spec(*spec));
    out
}

// ---------------------------------------------------------------------------
// Attribute grammar
// ---------------------------------------------------------------------------

/// The delimiter of a token group.
#[derive(Clone, Copy, PartialEq, Eq, Debug, Structural)]
pub enum Delim {
    Paren,
    Bracket,
    Brace,
    Invisible,
}

/// One token of an attribute's arguments, with groups flattened into their
/// opening and closing delimiters (balanced, as the compiler hands them
/// over). A punctuation character is `joint` when the next character
/// belongs to the same operator (the first `:` of `::`).
pub enum AttrTok {
    Ident(Vec<char>),
    Punct(char, bool),
    Literal(Vec<char>),
    Open(Delim),
    Close(Delim),
}

/// Why an attribute's arguments were refused.
pub enum AttrError {
    /// A key was expected and something else was found.
    ExpectedIdent,
    /// A parenthesized group was expected.
    ExpectedParens,
    /// A type was expected and none was found.
    ExpectedType,
    /// A key other than `rows`, `cols` or `decompose`, at the given token
    /// position.
    UnexpectedKey(usize),
    /// The `rows(..)` declaration is missing.
    MissingRows,
    /// The `cols(..)` declaration is missing.
    MissingCols,
    /// Something other than `;` follows a track.
    ExpectedTrackSeparator,
    /// A block-grid track names the uniform `[Element]` spelling.
    UniformTrack,
    /// Only some tracks of an axis name their sublist.
    TrackCountMismatch { rows_axis: bool, named: usize, total: usize },
    /// A `block(..)` group was expected.
    ExpectedBlock,
    /// A uniform block grid names a sublist.
    SublistInUniformBlock,
    /// A `matrix(..)` group was expected.
    ExpectedMatrix,
    /// A uniform matrix names a unit list.
    SublistInUniformMatrix,
    /// Something follows a matrix axis's size and list.
    ExpectedAxisEnd,
}

/// The decimal digit `d` (`0 <= d < 10`).
pub open spec fn digit(d: nat) -> char {
    if d == 0 { '0' } else if d == 1 { '1' } else if d == 2 { '2' } else if d == 3 { '3' }
    else if d == 4 { '4' } else if d == 5 { '5' } else if d == 6 { '6' } else if d == 7 { '7' }
    else if d == 8 { '8' } else { '9' }
}

/// The decimal numeral of `n`, without leading zeros.
pub open spec fn decimal(n: nat) -> Seq<char>
    decreases n,
{
    if n < 10 { seq![digit(n)] } else { decimal(n / 10) + seq![digit(n % 10)] }
}

/// The text of the identifier at token position `pos`, or nothing when
/// that token is not an identifier.
pub open spec fn word_at(ts: Seq<AttrTok>, pos: int) -> Seq<char> {
    if 0 <= pos < ts.len() {
        match ts[pos] {
            AttrTok::Ident(w) => w@,
            _ => seq![],
        }
    } else {
        seq![]
    }
}

/// The message an attribute reports for a refusal, over the attribute's
/// tokens `ts` (an unexpected key is quoted from them).
pub open spec fn error_text(e: AttrError, ts: Seq<AttrTok>) -> Seq<char> {
    match e {
        AttrError::ExpectedIdent => "expected identifier"@,
        AttrError::ExpectedParens => "expected parentheses"@,
        AttrError::ExpectedType => "expected a type"@,
        AttrError::UnexpectedKey(pos) =>
            "unexpected `"@ + word_at(ts, pos as int) + "`; expected `rows`, `cols`, or `decompose`"@,
        AttrError::MissingRows => "missing `rows(...)`"@,
        AttrError::MissingCols => "missing `cols(...)`"@,
        AttrError::ExpectedTrackSeparator =>
            "expected `;` between tracks (or `,` before this track's dimension list)"@,
        AttrError::UniformTrack => "`generic_block` does not support the uniform `[Element]` axis \
             spelling: a partitioned track's disassembly obligation \
             (`Take<_, Out = Repeated<Element, N>>`) would require \
             normalizing the repeated-list projection at a generic length, \
             which the trait solver cannot do. Use `#[generic_matrix]` for a \
             uniform axis, or name this track's sublist as an opaque type \
             parameter."@,
        AttrError::TrackCountMismatch { rows_axis, named, total } =>
            "`"@ + (if rows_axis { "rows"@ } else { "cols"@ }) + "`: "@ + decimal(named as nat) + " of "@
                + decimal(total as nat) + " tracks name a dimension list; give one for \
             every track (`size, dims`) or none"@,
        AttrError::ExpectedBlock => "expected `block(...)`; a `block(...)` group cannot be \
             mixed with bare `rows(...)` keys"@,
        AttrError::SublistInUniformBlock => "generic_block(uniform, ..): a uniform assembly has no \
             dimension lists \u{2014} drop the per-track sublists and write \
             bare sizes, e.g. `uniform, rows(N; M), cols(N; M)`"@,
        AttrError::ExpectedMatrix => "expected `matrix(...)`; a `matrix(...)` group cannot be \
             mixed with a bare `rows(...)` declaration"@,
        AttrError::SublistInUniformMatrix => "generic_matrix(uniform, ..): a uniform matrix has no dimension \
             lists \u{2014} drop the sublist and write bare sizes, e.g. \
             `uniform, rows(N), cols(M)`"@,
        AttrError::ExpectedAxisEnd => "expected `(size)`, `(size, dims)`, or `(size, [Element])`"@,
    }
}

/// The decimal digit `d`.
fn digit_char(d: usize) -> (r: char)
    requires
        d < 10,
    ensures
        r == digit(d as nat),
{
    if d == 0 { '0' } else if d == 1 { '1' } else if d == 2 { '2' } else if d == 3 { '3' }
    else if d == 4 { '4' } else if d == 5 { '5' } else if d == 6 { '6' } else if d == 7 { '7' }
    else if d == 8 { '8' } else { '9' }
}

/// Appends the decimal numeral of `n`.
fn push_decimal(out: &mut Vec<char>, n: usize)
    ensures
        final(out)@ == old(out)@ + decimal(n as nat),
    decreases n,
{
    if n < 10 {
        out.push(digit_char(n));
    } else {
        let ghost start = out@;
        push_decimal(out, n / 10);
        out.push(digit_char(n % 10));
        assert(out@ =~= start + (decimal((n / 10) as nat) + seq![digit((n % 10) as nat)]));
    }
}

impl AttrError {
    /// The message this refusal reports, for an attribute whose tokens are
    /// `ts`.
    pub fn message(&self, ts: &Vec<AttrTok>) -> (r: Vec<char>)
        ensures
            r@ == error_text(*self, ts@),
    {
        let mut out: Vec<char> = Vec::new();
        match self {
            AttrError::ExpectedIdent => push_lit(&mut out, "expected identifier"),
            AttrError::ExpectedParens => push_lit(&mut out, "expected parentheses"),
            AttrError::ExpectedType => push_lit(&mut out, "expected a type"),
            AttrError::UnexpectedKey(pos) => {
                push_lit(&mut out, "unexpected `");
                if *pos < ts.len() {
                    match &ts[*pos] {
                        AttrTok::Ident(w) => push_text(&mut out, w),
                        _ => {},
                    }
                }
                push_lit(&mut out, "`; expected `rows`, `cols`, or `decompose`");
            },
            AttrError::MissingRows => push_lit(&mut out, "missing `rows(...)`"),
            AttrError::MissingCols => push_lit(&mut out, "missing `cols(...)`"),
            AttrError::ExpectedTrackSeparator =>
                push_lit(&mut out, "expected `;` between tracks (or `,` before this track's dimension list)"),
            AttrError::UniformTrack => push_lit(&mut out, "`generic_block` does not support the uniform `[Element]` axis \
             spelling: a partitioned track's disassembly obligation \
             (`Take<_, Out = Repeated<Element, N>>`) would require \
             normalizing the repeated-list projection at a generic length, \
             which the trait solver cannot do. Use `#[generic_matrix]` for a \
             uniform axis, or name this track's sublist as an opaque type \
             parameter."),
            AttrError::TrackCountMismatch { rows_axis, named, total } => {
                push_lit(&mut out, "`");
                if *rows_axis {
                    push_lit(&mut out, "rows");
                } else {
                    push_lit(&mut out, "cols");
                }
                push_lit(&mut out, "`: ");
                push_decimal(&mut out, *named);
                push_lit(&mut out, " of ");
                push_decimal(&mut out, *total);
                push_lit(&mut out, " tracks name a dimension list; give one for \
             every track (`size, dims`) or none");
            },
            AttrError::ExpectedBlock => push_lit(&mut out, "expected `block(...)`; a `block(...)` group cannot be \
             mixed with bare `rows(...)` keys"),
            AttrError::SublistInUniformBlock => push_lit(&mut out, "generic_block(uniform, ..): a uniform assembly has no \
             dimension lists \u{2014} drop the per-track sublists and write \
             bare sizes, e.g. `uniform, rows(N; M), cols(N; M)`"),
            AttrError::ExpectedMatrix => push_lit(&mut out, "expected `matrix(...)`; a `matrix(...)` group cannot be \
             mixed with a bare `rows(...)` declaration"),
            AttrError::SublistInUniformMatrix => push_lit(&mut out, "generic_matrix(uniform, ..): a uniform matrix has no dimension \
             lists \u{2014} drop the sublist and write bare sizes, e.g. \
             `uniform, rows(N), cols(M)`"),
            AttrError::ExpectedAxisEnd => push_lit(&mut out, "expected `(size)`, `(size, dims)`, or `(size, [Element])`"),
        }
        proof {
            assert(out@ =~= error_text(*self, ts@));
        }
        out
    }
}

/// The source text of an opening or closing delimiter.
pub open spec fn delim_text(d: Delim, open: bool) -> Seq<char> {
    match d {
        Delim::Paren => if open { seq!['('] } else { seq![')'] },
        Delim::Bracket => if open { seq!['['] } else { seq![']'] },
        Delim::Brace => if open { seq!['{'] } else { seq!['}'] },
        Delim::Invisible => seq![],
    }
}

/// The source text of a token.
pub open spec fn tok_text(t: AttrTok) -> Seq<char> {
    match t {
        AttrTok::Ident(s) => s@,
        AttrTok::Punct(c, _) => seq![c],
        AttrTok::Literal(s) => s@,
        AttrTok::Open(d) => delim_text(d, true),
        AttrTok::Close(d) => delim_text(d, false),
    }
}

/// The space written after a token: none after a joint punctuation
/// character or an opening delimiter, one otherwise.
pub open spec fn tok_sep(t: AttrTok) -> Seq<char> {
    match t {
        AttrTok::Punct(_, true) => seq![],
        AttrTok::Open(_) => seq![],
        _ => seq![' '],
    }
}

/// The text of the tokens `ts[a..b]`.
pub open spec fn render(ts: Seq<AttrTok>, a: int, b: int) -> Seq<char>
    decreases b - a,
{
    if b <= a {
        seq![]
    } else {
        render(ts, a, b - 1) + tok_text(ts[b - 1]) + tok_sep(ts[b - 1])
    }
}

/// The token is the punctuation character `c`.
pub open spec fn is_punct(t: AttrTok, c: char) -> bool {
    t matches AttrTok::Punct(x, _) && x == c
}

/// The token is the identifier `word`.
pub open spec fn is_word(t: AttrTok, word: Seq<char>) -> bool {
    t matches AttrTok::Ident(s) && s@ == word
}

/// The token is a `-` joined to the next character: the first half of the
/// arrow `->`.
pub open spec fn is_joint_dash(t: AttrTok) -> bool {
    t matches AttrTok::Punct(c, joint) && c == '-' && joint
}

/// The nesting depth after the token at `q` of a type: groups and angle
/// brackets open and close levels, except that the `>` of an arrow `->`
/// (a `>` right after a joint `-`) closes none.
pub open spec fn depth_step(ts: Seq<AttrTok>, q: int, d: int) -> int {
    match ts[q] {
        AttrTok::Open(_) => d + 1,
        AttrTok::Close(_) => if d > 0 { d - 1 } else { d },
        AttrTok::Punct(c, _) =>
            if c == '<' {
                d + 1
            } else if c == '>' && d > 0 && !(q > 0 && is_joint_dash(ts[q - 1])) {
                d - 1
            } else {
                d
            },
        _ => d,
    }
}

/// Where a type starting at `q` (at nesting depth `d`) ends: the first `,`
/// or `;` outside every group and angle bracket (the arrow of a function
/// type closes no bracket), or `end`.
pub open spec fn type_end(ts: Seq<AttrTok>, q: int, end: int, d: int) -> int
    decreases end - q,
{
    if q >= end {
        end
    } else if d == 0 && (is_punct(ts[q], ',') || is_punct(ts[q], ';')) {
        q
    } else {
        type_end(ts, q + 1, end, depth_step(ts, q, d))
    }
}

/// Where the group whose content starts at `q` (at group depth `d`) closes:
/// the position of its closing delimiter, or `end` when it does not close.
pub open spec fn group_end(ts: Seq<AttrTok>, q: int, end: int, d: int) -> int
    decreases end - q,
{
    if q >= end {
        end
    } else {
        let d2 = match ts[q] {
            AttrTok::Open(_) => d + 1,
            AttrTok::Close(_) => d - 1,
            _ => d,
        };
        if d2 == 0 { q } else { group_end(ts, q + 1, end, d2) }
    }
}

/// The type `ts[a..b]` is a slice type `[Element]`.
pub open spec fn is_slice(ts: Seq<AttrTok>, a: int, b: int) -> bool {
    &&& b - a >= 2
    &&& ts[a] == AttrTok::Open(Delim::Bracket)
    &&& group_end(ts, a + 1, b, 1) == b - 1
    &&& type_end(ts, a + 1, b - 1, 0) == b - 1
}

/// The size written as `ts[a..b]`, normalized: a bare parameter `N` becomes
/// `Const<N>`.
pub open spec fn size_text(ts: Seq<AttrTok>, a: int, b: int) -> Seq<char> {
    if b == a + 1 && ts[a] is Ident { t_const(render(ts, a, b)) } else { render(ts, a, b) }
}

pub proof fn lemma_type_end_bounds(ts: Seq<AttrTok>, q: int, end: int, d: int)
    requires
        q <= end,
    ensures
        q <= type_end(ts, q, end, d) <= end,
    decreases end - q,
{
    if q < end && !(d == 0 && (is_punct(ts[q], ',') || is_punct(ts[q], ';'))) {
        lemma_type_end_bounds(ts, q + 1, end, depth_step(ts, q, d));
    }
}

pub proof fn lemma_group_end_bounds(ts: Seq<AttrTok>, q: int, end: int, d: int)
    requires
        q <= end,
    ensures
        q <= group_end(ts, q, end, d) <= end,
    decreases end - q,
{
    if q < end {
        let d2 = match ts[q] {
            AttrTok::Open(_) => d + 1,
            AttrTok::Close(_) => d - 1,
            _ => d,
        };
        if d2 != 0 {
            lemma_group_end_bounds(ts, q + 1, end, d2);
        }
    }
}

/// The text of `ts[a..b]`.
fn render_exec(ts: &Vec<AttrTok>, a: usize, b: usize) -> (r: Vec<char>)
    requires
        a <= b <= ts.len(),
    ensures
        r@ == render(ts@, a as int, b as int),
{
    let mut out: Vec<char> = Vec::new();
    let mut i: usize = a;
    assert(out@ =~= render(ts@, a as int, a as int));
    while i < b
        invariant
            a <= i <= b,
            b <= ts.len(),
            out@ == render(ts@, a as int, i as int),
        decreases b - i,
    {
        let ghost prev = out@;
        match &ts[i] {
            AttrTok::Ident(s) => { push_text(&mut out, s); out.push(' '); },
            AttrTok::Literal(s) => { push_text(&mut out, s); out.push(' '); },
            AttrTok::Punct(c, joint) => {
                out.push(*c);
                if !*joint {
                    out.push(' ');
                }
            },
            AttrTok::Open(d) => {
                match d {
                    Delim::Paren => out.push('('),
                    Delim::Bracket => out.push('['),
                    Delim::Brace => out.push('{'),
                    Delim::Invisible => {},
                }
            },
            AttrTok::Close(d) => {
                match d {
                    Delim::Paren => out.push(')'),
                    Delim::Bracket => out.push(']'),
                    Delim::Brace => out.push('}'),
                    Delim::Invisible => {},
                }
                out.push(' ');
            },
        }
        assert(out@ =~= prev + tok_text(ts@[i as int]) + tok_sep(ts@[i as int]));
        i += 1;
    }
    out
}

/// Whether `t` is the punctuation character `c`.
fn punct_is(t: &AttrTok, c: char) -> (r: bool)
    ensures
        r == is_punct(*t, c),
{
    match t {
        AttrTok::Punct(x, _) => *x == c,
        _ => false,
    }
}

/// Whether `t` is the identifier `word`.
fn word_is(t: &AttrTok, word: &str) -> (r: bool)
    ensures
        r == is_word(*t, word@),
{
    match t {
        AttrTok::Ident(s) => {
            let mut w: Vec<char> = Vec::new();
            push_lit(&mut w, word);
            text_eq(s, &w)
        },
        _ => false,
    }
}

/// The token is a joint `-` (see [`is_joint_dash`]).
fn joint_dash(t: &AttrTok) -> (r: bool)
    ensures
        r == is_joint_dash(*t),
{
    match t {
        AttrTok::Punct(c, joint) => *c == '-' && *joint,
        _ => false,
    }
}

/// Where the type starting at `q` ends (see [`type_end`]).
fn type_end_exec(ts: &Vec<AttrTok>, q: usize, end: usize) -> (r: usize)
    requires
        q <= end <= ts.len(),
        end < usize::MAX,
    ensures
        r == type_end(ts@, q as int, end as int, 0),
        q <= r <= end,
{
    proof {
        lemma_type_end_bounds(ts@, q as int, end as int, 0);
    }
    let mut i: usize = q;
    let mut d: usize = 0;
    while i < end
        invariant
            q <= i <= end,
            end <= ts.len(),
            d <= i - q,
            type_end(ts@, i as int, end as int, d as int) == type_end(ts@, q as int, end as int, 0),
        decreases end - i,
    {
        if d == 0 && (punct_is(&ts[i], ',') || punct_is(&ts[i], ';')) {
            return i;
        }
        match &ts[i] {
            AttrTok::Open(_) => d = d + 1,
            AttrTok::Close(_) => { if d > 0 { d = d - 1; } },
            AttrTok::Punct(c, _) => {
                if *c == '<' {
                    d = d + 1;
                } else if *c == '>' && d > 0 && !(i > 0 && joint_dash(&ts[i - 1])) {
                    d = d - 1;
                }
            },
            _ => {},
        }
        i += 1;
    }
    i
}

/// Where the group whose content starts at `q` closes (see [`group_end`]).
fn group_end_exec(ts: &Vec<AttrTok>, q: usize, end: usize) -> (r: usize)
    requires
        q <= end <= ts.len(),
        end < usize::MAX,
    ensures
        r == group_end(ts@, q as int, end as int, 1),
        q <= r <= end,
{
    proof {
        lemma_group_end_bounds(ts@, q as int, end as int, 1);
    }
    let mut i: usize = q;
    let mut d: usize = 1;
    while i < end
        invariant
            q <= i <= end,
            end <= ts.len(),
            end < usize::MAX,
            1 <= d <= i - q + 1,
            group_end(ts@, i as int, end as int, d as int) == group_end(ts@, q as int, end as int, 1),
        decreases end - i,
    {
        match &ts[i] {
            AttrTok::Open(_) => d = d + 1,
            AttrTok::Close(_) => d = d - 1,
            _ => {},
        }
        if d == 0 {
            return i;
        }
        i += 1;
    }
    i
}

/// Whether `ts[a..b]` is a slice type (see [`is_slice`]).
fn is_slice_exec(ts: &Vec<AttrTok>, a: usize, b: usize) -> (r: bool)
    requires
        a <= b <= ts.len(),
        b < usize::MAX,
    ensures
        r == is_slice(ts@, a as int, b as int),
{
    if b - a < 2 {
        return false;
    }
    match &ts[a] {
        AttrTok::Open(Delim::Bracket) => {},
        _ => return false,
    }
    group_end_exec(ts, a + 1, b) == b - 1 && type_end_exec(ts, a + 1, b - 1) == b - 1
}

/// The normalized size written as `ts[a..b]` (see [`size_text`]).
fn size_text_exec(ts: &Vec<AttrTok>, a: usize, b: usize) -> (r: Vec<char>)
    requires
        a < b <= ts.len(),
    ensures
        r@ == size_text(ts@, a as int, b as int),
{
    let text = render_exec(ts, a, b);
    let bare = b == a + 1 && match &ts[a] {
        AttrTok::Ident(_) => true,
        _ => false,
    };
    norm_dim(&text, bare)
}

/// The tracks of an axis group from position `p` on, given the sizes and
/// sublists read so far: each track is a size, optionally `,` and the
/// sublist occupying it (not a slice type), and tracks are separated by `;`.
pub open spec fn tracks_from(ts: Seq<AttrTok>, p: int, hi: int, sizes: Seq<Seq<char>>, dims: Seq<Seq<char>>)
    -> Result<(Seq<Seq<char>>, Seq<Seq<char>>), AttrError>
    decreases hi - p,
{
    if p >= hi {
        Ok((sizes, dims))
    } else {
        let q = type_end(ts, p, hi, 0);
        if q <= p {
            Err(AttrError::ExpectedType)
        } else {
            let named = q < hi && is_punct(ts[q], ',');
            let q2 = if named { type_end(ts, q + 1, hi, 0) } else { q };
            if named && q2 <= q + 1 {
                Err(AttrError::ExpectedType)
            } else if named && is_slice(ts, q + 1, q2) {
                Err(AttrError::UniformTrack)
            } else {
                let sizes2 = sizes.push(size_text(ts, p, q));
                let dims2 = if named { dims.push(render(ts, q + 1, q2)) } else { dims };
                if q2 < hi && is_punct(ts[q2], ';') {
                    proof {
                        lemma_type_end_bounds(ts, p, hi, 0);
                        if named {
                            lemma_type_end_bounds(ts, q + 1, hi, 0);
                        }
                    }
                    tracks_from(ts, q2 + 1, hi, sizes2, dims2)
                } else if q2 < hi {
                    Err(AttrError::ExpectedTrackSeparator)
                } else {
                    Ok((sizes2, dims2))
                }
            }
        }
    }
}

/// An axis group `(size[, dims]; …)` with content `ts[lo..hi]`: its sizes,
/// and its sublists when every track names one (naming only some is
/// refused).
pub open spec fn tracks_spec(ts: Seq<AttrTok>, lo: int, hi: int, rows_axis: bool)
    -> Result<(Seq<Seq<char>>, Option<Seq<Seq<char>>>), AttrError>
{
    match tracks_from(ts, lo, hi, seq![], seq![]) {
        Err(e) => Err(e),
        Ok((s, d)) => if d.len() != 0 && d.len() != s.len() {
            Err(AttrError::TrackCountMismatch { rows_axis, named: d.len() as usize, total: s.len() as usize })
        } else {
            Ok((s, if d.len() == 0 { None } else { Some(d) }))
        },
    }
}

/// The texts of an optional list.
pub open spec fn opt_views(o: Option<Vec<Vec<char>>>) -> Option<Seq<Seq<char>>> {
    match o {
        Some(v) => Some(views(v@)),
        None => None,
    }
}

/// Parses an axis group's content `ts[lo..hi]` (see [`tracks_spec`]).
pub fn parse_tracks(ts: &Vec<AttrTok>, lo: usize, hi: usize, rows_axis: bool)
    -> (r: Result<(Vec<Vec<char>>, Option<Vec<Vec<char>>>), AttrError>)
    requires
        lo <= hi <= ts.len(),
        hi < usize::MAX,
    ensures
        match r {
            Ok((s, d)) => tracks_spec(ts@, lo as int, hi as int, rows_axis) == Ok::<(Seq<Seq<char>>, Option<Seq<Seq<char>>>), AttrError>((views(s@), opt_views(d))),
            Err(e) => tracks_spec(ts@, lo as int, hi as int, rows_axis) == Err::<(Seq<Seq<char>>, Option<Seq<Seq<char>>>), AttrError>(e),
        },
        r matches Ok((s, d)) ==> (d matches Some(l) ==> l.len() == s.len() && l.len() > 0),
{
    let mut sizes: Vec<Vec<char>> = Vec::new();
    let mut dims: Vec<Vec<char>> = Vec::new();
    let ghost goal = tracks_from(ts@, lo as int, hi as int, seq![], seq![]);
    assert(views(sizes@) =~= seq![]);
    assert(views(dims@) =~= seq![]);
    let mut p: usize = lo;
    loop
        invariant
            lo <= p <= hi,
            hi <= ts.len(),
            hi < usize::MAX,
            goal == tracks_from(ts@, lo as int, hi as int, seq![], seq![]),
            tracks_from(ts@, p as int, hi as int, views(sizes@), views(dims@)) == goal,
        decreases hi - p,
    {
        if p >= hi {
            return finish_tracks(sizes, dims, rows_axis, Ghost(ts@), Ghost(lo as int), Ghost(hi as int));
        }
        let q = type_end_exec(ts, p, hi);
        if q <= p {
            return Err(AttrError::ExpectedType);
        }
        let named = q < hi && punct_is(&ts[q], ',');
        let q2 = if named { type_end_exec(ts, q + 1, hi) } else { q };
        if named && q2 <= q + 1 {
            return Err(AttrError::ExpectedType);
        }
        if named && is_slice_exec(ts, q + 1, q2) {
            return Err(AttrError::UniformTrack);
        }
        let ghost s0 = views(sizes@);
        let ghost d0 = views(dims@);
        sizes.push(size_text_exec(ts, p, q));
        assert(views(sizes@) =~= s0.push(size_text(ts@, p as int, q as int)));
        if named {
            dims.push(render_exec(ts, q + 1, q2));
            assert(views(dims@) =~= d0.push(render(ts@, q + 1, q2 as int)));
        }
        if q2 < hi && punct_is(&ts[q2], ';') {
            p = q2 + 1;
        } else if q2 < hi {
            return Err(AttrError::ExpectedTrackSeparator);
        } else {
            return finish_tracks(sizes, dims, rows_axis, Ghost(ts@), Ghost(lo as int), Ghost(hi as int));
        }
    }
}

/// The result of an axis group once its tracks are read: sublists must be
/// named on every track or on none.
fn finish_tracks(
    sizes: Vec<Vec<char>>,
    dims: Vec<Vec<char>>,
    rows_axis: bool,
    Ghost(ts): Ghost<Seq<AttrTok>>,
    Ghost(lo): Ghost<int>,
    Ghost(hi): Ghost<int>,
) -> (r: Result<(Vec<Vec<char>>, Option<Vec<Vec<char>>>), AttrError>)
    requires
        tracks_from(ts, lo, hi, seq![], seq![]) == Ok::<(Seq<Seq<char>>, Seq<Seq<char>>), AttrError>((views(sizes@), views(dims@))),
    ensures
        match r {
            Ok((s, d)) => tracks_spec(ts, lo, hi, rows_axis) == Ok::<(Seq<Seq<char>>, Option<Seq<Seq<char>>>), AttrError>((views(s@), opt_views(d))),
            Err(e) => tracks_spec(ts, lo, hi, rows_axis) == Err::<(Seq<Seq<char>>, Option<Seq<Seq<char>>>), AttrError>(e),
        },
        r matches Ok((s, d)) ==> (d matches Some(l) ==> l.len() == s.len() && l.len() > 0),
{
    if dims.len() != 0 && dims.len() != sizes.len() {
        return Err(AttrError::TrackCountMismatch { rows_axis, named: dims.len(), total: sizes.len() });
    }
    if dims.len() == 0 {
        Ok((sizes, None))
    } else {
        Ok((sizes, Some(dims)))
    }
}

/// The texts of a parsed axis: its sizes, and its sublists when named.
pub open spec fn axis_view(a: Option<(Vec<Vec<char>>, Option<Vec<Vec<char>>>)>) -> Option<(Seq<Seq<char>>, Option<Seq<Seq<char>>>)> {
    match a {
        Some((s, d)) => Some((views(s@), opt_views(d))),
        None => None,
    }
}

/// The texts of a parsed grid: rows, columns, and the decomposition flag.
pub open spec fn shape_view(s: Shape) -> ((Seq<Seq<char>>, Option<Seq<Seq<char>>>), (Seq<Seq<char>>, Option<Seq<Seq<char>>>), bool) {
    ((views(s.rows@), opt_views(s.row_dims)), (views(s.cols@), opt_views(s.col_dims)), s.decompose)
}

/// The grid declared by the keys from position `p` on, given the axes read
/// so far: `rows(..)`, `cols(..)` (a later one replaces an earlier one) and
/// `decompose`, each optionally followed by `,`; both axes are required.
pub open spec fn shape_from(
    ts: Seq<AttrTok>,
    p: int,
    hi: int,
    rows: Option<(Seq<Seq<char>>, Option<Seq<Seq<char>>>)>,
    cols: Option<(Seq<Seq<char>>, Option<Seq<Seq<char>>>)>,
    dec: bool,
) -> Result<((Seq<Seq<char>>, Option<Seq<Seq<char>>>), (Seq<Seq<char>>, Option<Seq<Seq<char>>>), bool), AttrError>
    decreases hi - p,
{
    if p >= hi {
        match (rows, cols) {
            (None, _) => Err(AttrError::MissingRows),
            (_, None) => Err(AttrError::MissingCols),
            (Some(r), Some(c)) => Ok((r, c, dec)),
        }
    } else if !(ts[p] is Ident) {
        Err(AttrError::ExpectedIdent)
    } else if is_word(ts[p], "rows"@) || is_word(ts[p], "cols"@) {
        if p + 1 >= hi || ts[p + 1] != AttrTok::Open(Delim::Paren) {
            Err(AttrError::ExpectedParens)
        } else {
            let q = group_end(ts, p + 2, hi, 1);
            if q >= hi {
                Err(AttrError::ExpectedParens)
            } else {
                let is_rows = is_word(ts[p], "rows"@);
                match tracks_spec(ts, p + 2, q, is_rows) {
                    Err(e) => Err(e),
                    Ok(t) => {
                        let next = if q + 1 < hi && is_punct(ts[q + 1], ',') { q + 2 } else { q + 1 };
                        proof {
                            lemma_group_end_bounds(ts, p + 2, hi, 1);
                        }
                        if is_rows {
                            shape_from(ts, next, hi, Some(t), cols, dec)
                        } else {
                            shape_from(ts, next, hi, rows, Some(t), dec)
                        }
                    },
                }
            }
        }
    } else if is_word(ts[p], "decompose"@) {
        let next = if p + 1 < hi && is_punct(ts[p + 1], ',') { p + 2 } else { p + 1 };
        shape_from(ts, next, hi, rows, cols, true)
    } else {
        Err(AttrError::UnexpectedKey(p as usize))
    }
}

/// Parses one grid's keys `ts[lo..hi]` (see [`shape_from`]).
pub fn parse_shape(ts: &Vec<AttrTok>, lo: usize, hi: usize) -> (r: Result<Shape, AttrError>)
    requires
        lo <= hi <= ts.len(),
        hi < usize::MAX,
    ensures
        match r {
            Ok(s) => shape_from(ts@, lo as int, hi as int, None, None, false) == Ok::<_, AttrError>(shape_view(s)),
            Err(e) => shape_from(ts@, lo as int, hi as int, None, None, false) == Err::<((Seq<Seq<char>>, Option<Seq<Seq<char>>>), (Seq<Seq<char>>, Option<Seq<Seq<char>>>), bool), AttrError>(e),
        },
        r matches Ok(s) ==> tracks_ok(s.rows@, s.row_dims) && tracks_ok(s.cols@, s.col_dims),
{
    let ghost goal = shape_from(ts@, lo as int, hi as int, None, None, false);
    let mut rows: Option<(Vec<Vec<char>>, Option<Vec<Vec<char>>>)> = None;
    let mut cols: Option<(Vec<Vec<char>>, Option<Vec<Vec<char>>>)> = None;
    let mut dec = false;
    let mut p: usize = lo;
    loop
        invariant
            lo <= p <= hi,
            hi <= ts.len(),
            hi < usize::MAX,
            goal == shape_from(ts@, lo as int, hi as int, None, None, false),
            shape_from(ts@, p as int, hi as int, axis_view(rows), axis_view(cols), dec) == goal,
            rows matches Some((s, d)) ==> tracks_ok(s@, d),
            cols matches Some((s, d)) ==> tracks_ok(s@, d),
        decreases hi - p,
    {
        if p >= hi {
            match (rows, cols) {
                (None, _) => return Err(AttrError::MissingRows),
                (_, None) => return Err(AttrError::MissingCols),
                (Some((rs, rd)), Some((cs, cd))) => {
                    return Ok(Shape { rows: rs, cols: cs, row_dims: rd, col_dims: cd, decompose: dec });
                },
            }
        }
        let is_ident = match &ts[p] {
            AttrTok::Ident(_) => true,
            _ => false,
        };
        if !is_ident {
            return Err(AttrError::ExpectedIdent);
        }
        let is_rows = word_is(&ts[p], "rows");
        if is_rows || word_is(&ts[p], "cols") {
            let paren = p + 1 < hi && match &ts[p + 1] {
                AttrTok::Open(Delim::Paren) => true,
                _ => false,
            };
            if !paren {
                return Err(AttrError::ExpectedParens);
            }
            let q = group_end_exec(ts, p + 2, hi);
            if q >= hi {
                return Err(AttrError::ExpectedParens);
            }
            let t = match parse_tracks(ts, p + 2, q, is_rows) {
                Ok(t) => t,
                Err(e) => return Err(e),
            };
            let next = if q + 1 < hi && punct_is(&ts[q + 1], ',') { q + 2 } else { q + 1 };
            if is_rows {
                rows = Some(t);
            } else {
                cols = Some(t);
            }
            p = next;
        } else if word_is(&ts[p], "decompose") {
            let next = if p + 1 < hi && punct_is(&ts[p + 1], ',') { p + 2 } else { p + 1 };
            dec = true;
            p = next;
        } else {
            return Err(AttrError::UnexpectedKey(p));
        }
    }
}

/// The grids declared by `block(..)` groups from position `p` on, after the
/// grids `acc` read so far; each group is optionally followed by `,`.
pub open spec fn blocks_from(ts: Seq<AttrTok>, p: int, end: int, acc: Seq<((Seq<Seq<char>>, Option<Seq<Seq<char>>>), (Seq<Seq<char>>, Option<Seq<Seq<char>>>), bool)>) -> Result<Seq<((Seq<Seq<char>>, Option<Seq<Seq<char>>>), (Seq<Seq<char>>, Option<Seq<Seq<char>>>), bool)>, AttrError>
    decreases end - p,
{
    if p >= end {
        Ok(acc)
    } else if !(ts[p] is Ident) {
        Err(AttrError::ExpectedIdent)
    } else if !is_word(ts[p], "block"@) {
        Err(AttrError::ExpectedBlock)
    } else if p + 1 >= end || ts[p + 1] != AttrTok::Open(Delim::Paren) {
        Err(AttrError::ExpectedParens)
    } else {
        let q = group_end(ts, p + 2, end, 1);
        if q >= end {
            Err(AttrError::ExpectedParens)
        } else {
            match shape_from(ts, p + 2, q, None, None, false) {
                Err(e) => Err(e),
                Ok(sh) => {
                    proof {
                        lemma_group_end_bounds(ts, p + 2, end, 1);
                    }
                    let next = if q + 1 < end && is_punct(ts[q + 1], ',') { q + 2 } else { q + 1 };
                    blocks_from(ts, next, end, acc.push(sh))
                },
            }
        }
    }
}

/// The arguments of a block-grid attribute: an optional leading `uniform`
/// (and `,`), then either `block(..)` groups or the keys of a single grid. A
/// uniform assembly may not name sublists.
pub open spec fn shapes_spec(ts: Seq<AttrTok>) -> Result<(bool, Seq<((Seq<Seq<char>>, Option<Seq<Seq<char>>>), (Seq<Seq<char>>, Option<Seq<Seq<char>>>), bool)>), AttrError> {
    let n = ts.len() as int;
    let uniform = n > 0 && is_word(ts[0], "uniform"@);
    let p0 = if uniform { if 1 < n && is_punct(ts[1], ',') { 2int } else { 1int } } else { 0int };
    let is_block = p0 < n && is_word(ts[p0], "block"@);
    let parsed = if is_block {
        blocks_from(ts, p0, n, seq![])
    } else {
        match shape_from(ts, p0, n, None, None, false) {
            Ok(sh) => Ok(seq![sh]),
            Err(e) => Err(e),
        }
    };
    shapes_finish(uniform, parsed)
}

/// The parsed grids, refused when a uniform assembly names a sublist.
pub open spec fn shapes_finish(uniform: bool, parsed: Result<Seq<((Seq<Seq<char>>, Option<Seq<Seq<char>>>), (Seq<Seq<char>>, Option<Seq<Seq<char>>>), bool)>, AttrError>) -> Result<(bool, Seq<((Seq<Seq<char>>, Option<Seq<Seq<char>>>), (Seq<Seq<char>>, Option<Seq<Seq<char>>>), bool)>), AttrError> {
    match parsed {
        Err(e) => Err(e),
        Ok(shapes) => if uniform && exists|i: int| 0 <= i < shapes.len() && ((#[trigger] shapes[i]).0.1 is Some || shapes[i].1.1 is Some) {
            Err(AttrError::SublistInUniformBlock)
        } else {
            Ok((uniform, shapes))
        },
    }
}

/// The texts of parsed grids.
pub open spec fn shapes_view(s: Shapes) -> (bool, Seq<((Seq<Seq<char>>, Option<Seq<Seq<char>>>), (Seq<Seq<char>>, Option<Seq<Seq<char>>>), bool)>) {
    (s.uniform, Seq::new(s.shapes.len() as nat, |i: int| shape_view(s.shapes@[i])))
}

/// Parses the arguments of a block-grid attribute (see [`shapes_spec`]).
pub fn parse_shapes(ts: &Vec<AttrTok>) -> (r: Result<Shapes, AttrError>)
    requires
        ts.len() < usize::MAX,
    ensures
        match r {
            Ok(s) => shapes_spec(ts@) == Ok::<(bool, Seq<((Seq<Seq<char>>, Option<Seq<Seq<char>>>), (Seq<Seq<char>>, Option<Seq<Seq<char>>>), bool)>), AttrError>(shapes_view(s)),
            Err(e) => shapes_spec(ts@) == Err::<(bool, Seq<((Seq<Seq<char>>, Option<Seq<Seq<char>>>), (Seq<Seq<char>>, Option<Seq<Seq<char>>>), bool)>), AttrError>(e),
        },
        r matches Ok(s) ==> forall|i: int| 0 <= i < s.shapes.len() ==>
            tracks_ok((#[trigger] s.shapes@[i]).rows@, s.shapes@[i].row_dims) && tracks_ok(s.shapes@[i].cols@, s.shapes@[i].col_dims),
{
    let n = ts.len();
    let uniform = n > 0 && word_is(&ts[0], "uniform");
    let p0: usize = if uniform { if 1 < n && punct_is(&ts[1], ',') { 2 } else { 1 } } else { 0 };
    let is_block = p0 < n && word_is(&ts[p0], "block");
    let mut shapes: Vec<Shape> = Vec::new();
    let ghost parsed: Result<Seq<((Seq<Seq<char>>, Option<Seq<Seq<char>>>), (Seq<Seq<char>>, Option<Seq<Seq<char>>>), bool)>, AttrError>;
    if is_block {
        let ghost goal = blocks_from(ts@, p0 as int, n as int, seq![]);
        proof {
            parsed = goal;
        }
        assert(Seq::new(shapes.len() as nat, |i: int| shape_view(shapes@[i])) =~= seq![]);
        let mut p = p0;
        while p < n
            invariant
                p0 <= p <= n,
                n == ts.len(),
                n < usize::MAX,
                goal == blocks_from(ts@, p0 as int, n as int, seq![]),
                shapes_spec(ts@) == shapes_finish(uniform, goal),
                blocks_from(ts@, p as int, n as int, Seq::new(shapes.len() as nat, |i: int| shape_view(shapes@[i]))) == goal,
                forall|i: int| 0 <= i < shapes.len() ==>
                    tracks_ok((#[trigger] shapes@[i]).rows@, shapes@[i].row_dims) && tracks_ok(shapes@[i].cols@, shapes@[i].col_dims),
            decreases n - p,
        {
            let is_ident = match &ts[p] {
                AttrTok::Ident(_) => true,
                _ => false,
            };
            if !is_ident {
                return Err(AttrError::ExpectedIdent);
            }
            if !word_is(&ts[p], "block") {
                return Err(AttrError::ExpectedBlock);
            }
            let paren = p + 1 < n && match &ts[p + 1] {
                AttrTok::Open(Delim::Paren) => true,
                _ => false,
            };
            if !paren {
                return Err(AttrError::ExpectedParens);
            }
            let q = group_end_exec(ts, p + 2, n);
            if q >= n {
                return Err(AttrError::ExpectedParens);
            }
            let sh = match parse_shape(ts, p + 2, q) {
                Ok(sh) => sh,
                Err(e) => return Err(e),
            };
            let ghost before = Seq::new(shapes.len() as nat, |i: int| shape_view(shapes@[i]));
            shapes.push(sh);
            assert(Seq::new(shapes.len() as nat, |i: int| shape_view(shapes@[i])) =~= before.push(shape_view(sh)));
            p = if q + 1 < n && punct_is(&ts[q + 1], ',') { q + 2 } else { q + 1 };
        }
        assert(goal == Ok::<Seq<((Seq<Seq<char>>, Option<Seq<Seq<char>>>), (Seq<Seq<char>>, Option<Seq<Seq<char>>>), bool)>, AttrError>(Seq::new(shapes.len() as nat, |i: int| shape_view(shapes@[i]))));
    } else {
        let sh = match parse_shape(ts, p0, n) {
            Ok(sh) => sh,
            Err(e) => return Err(e),
        };
        shapes.push(sh);
        assert(Seq::new(shapes.len() as nat, |i: int| shape_view(shapes@[i])) =~= seq![shape_view(sh)]);
        proof {
            parsed = Ok(seq![shape_view(sh)]);
        }
    }
    assert(parsed == Ok::<Seq<((Seq<Seq<char>>, Option<Seq<Seq<char>>>), (Seq<Seq<char>>, Option<Seq<Seq<char>>>), bool)>, AttrError>(Seq::new(shapes.len() as nat, |i: int| shape_view(shapes@[i]))));
    assert(shapes_spec(ts@) == shapes_finish(uniform, parsed));
    let ghost views_now = Seq::new(shapes.len() as nat, |i: int| shape_view(shapes@[i]));
    if uniform {
        let mut i: usize = 0;
        while i < shapes.len()
            invariant
                i <= shapes.len(),
                uniform,
                shapes_spec(ts@) == shapes_finish(uniform, Ok::<Seq<((Seq<Seq<char>>, Option<Seq<Seq<char>>>), (Seq<Seq<char>>, Option<Seq<Seq<char>>>), bool)>, AttrError>(views_now)),
                views_now == Seq::new(shapes.len() as nat, |i: int| shape_view(shapes@[i])),
                forall|k: int| 0 <= k < i ==> !((#[trigger] views_now[k]).0.1 is Some || views_now[k].1.1 is Some),
            decreases shapes.len() - i,
        {
            if shapes[i].row_dims.is_some() || shapes[i].col_dims.is_some() {
                assert(views_now[i as int].0.1 is Some || views_now[i as int].1.1 is Some);
                return Err(AttrError::SublistInUniformBlock);
            }
            i += 1;
        }
    }
    let r = Shapes { uniform, shapes };
    assert(shapes_view(r).1 =~= views_now);
    Ok(r)
}

/// The texts of an axis's unit list: whether it is the uniform spelling,
/// and the list type (or the element type of `[Element]`).
pub open spec fn axis_dim_view(d: Option<AxisDim>) -> Option<(bool, Seq<char>)> {
    match d {
        Some(AxisDim::List(l)) => Some((false, l@)),
        Some(AxisDim::Uniform(e)) => Some((true, e@)),
        None => None,
    }
}

/// The texts of a parsed matrix declaration.
pub open spec fn matrix_view(m: MatrixShape) -> ((Seq<char>, Option<(bool, Seq<char>)>), (Seq<char>, Option<(bool, Seq<char>)>), bool) {
    ((m.row@, axis_dim_view(m.row_dim)), (m.col@, axis_dim_view(m.col_dim)), m.decompose)
}

/// A matrix axis `(size[, dims])` with content `ts[lo..hi]`: the normalized
/// size, and the unit list when named (a slice type `[Element]` is the
/// uniform spelling); nothing may follow.
pub open spec fn axis_spec(ts: Seq<AttrTok>, lo: int, hi: int) -> Result<(Seq<char>, Option<(bool, Seq<char>)>), AttrError> {
    let q = type_end(ts, lo, hi, 0);
    if q <= lo {
        Err(AttrError::ExpectedType)
    } else {
        let named = q < hi && is_punct(ts[q], ',');
        let q2 = if named { type_end(ts, q + 1, hi, 0) } else { q };
        if named && q2 <= q + 1 {
            Err(AttrError::ExpectedType)
        } else if q2 < hi {
            Err(AttrError::ExpectedAxisEnd)
        } else {
            let dim = if !named {
                None
            } else if is_slice(ts, q + 1, q2) {
                Some((true, render(ts, q + 2, q2 - 1)))
            } else {
                Some((false, render(ts, q + 1, q2)))
            };
            Ok((size_text(ts, lo, q), dim))
        }
    }
}

/// Parses a matrix axis (see [`axis_spec`]).
pub fn parse_axis(ts: &Vec<AttrTok>, lo: usize, hi: usize) -> (r: Result<(Vec<char>, Option<AxisDim>), AttrError>)
    requires
        lo <= hi <= ts.len(),
        hi < usize::MAX,
    ensures
        match r {
            Ok((sz, d)) => axis_spec(ts@, lo as int, hi as int) == Ok::<(Seq<char>, Option<(bool, Seq<char>)>), AttrError>((sz@, axis_dim_view(d))),
            Err(e) => axis_spec(ts@, lo as int, hi as int) == Err::<(Seq<char>, Option<(bool, Seq<char>)>), AttrError>(e),
        },
{
    let q = type_end_exec(ts, lo, hi);
    if q <= lo {
        return Err(AttrError::ExpectedType);
    }
    let named = q < hi && punct_is(&ts[q], ',');
    let q2 = if named { type_end_exec(ts, q + 1, hi) } else { q };
    if named && q2 <= q + 1 {
        return Err(AttrError::ExpectedType);
    }
    if q2 < hi {
        return Err(AttrError::ExpectedAxisEnd);
    }
    let size = size_text_exec(ts, lo, q);
    let dim = if !named {
        None
    } else if is_slice_exec(ts, q + 1, q2) {
        Some(axis_dim(Vec::new(), Some(render_exec(ts, q + 2, q2 - 1))))
    } else {
        Some(axis_dim(render_exec(ts, q + 1, q2), None))
    };
    Ok((size, dim))
}

/// The matrix declared by the keys from position `p` on, given the axes read
/// so far: `rows(..)`, `cols(..)` and `decompose`, each optionally followed
/// by `,`; both axes are required.
pub open spec fn matrix_decl_from(ts: Seq<AttrTok>, p: int, hi: int, row: Option<(Seq<char>, Option<(bool, Seq<char>)>)>, col: Option<(Seq<char>, Option<(bool, Seq<char>)>)>, dec: bool) -> Result<((Seq<char>, Option<(bool, Seq<char>)>), (Seq<char>, Option<(bool, Seq<char>)>), bool), AttrError>
    decreases hi - p,
{
    if p >= hi {
        match (row, col) {
            (None, _) => Err(AttrError::MissingRows),
            (_, None) => Err(AttrError::MissingCols),
            (Some(r), Some(c)) => Ok((r, c, dec)),
        }
    } else if !(ts[p] is Ident) {
        Err(AttrError::ExpectedIdent)
    } else if is_word(ts[p], "rows"@) || is_word(ts[p], "cols"@) {
        if p + 1 >= hi || ts[p + 1] != AttrTok::Open(Delim::Paren) {
            Err(AttrError::ExpectedParens)
        } else {
            let q = group_end(ts, p + 2, hi, 1);
            if q >= hi {
                Err(AttrError::ExpectedParens)
            } else {
                match axis_spec(ts, p + 2, q) {
                    Err(e) => Err(e),
                    Ok(a) => {
                        let next = if q + 1 < hi && is_punct(ts[q + 1], ',') { q + 2 } else { q + 1 };
                        proof {
                            lemma_group_end_bounds(ts, p + 2, hi, 1);
                        }
                        if is_word(ts[p], "rows"@) {
                            matrix_decl_from(ts, next, hi, Some(a), col, dec)
                        } else {
                            matrix_decl_from(ts, next, hi, row, Some(a), dec)
                        }
                    },
                }
            }
        }
    } else if is_word(ts[p], "decompose"@) {
        let next = if p + 1 < hi && is_punct(ts[p + 1], ',') { p + 2 } else { p + 1 };
        matrix_decl_from(ts, next, hi, row, col, true)
    } else {
        Err(AttrError::UnexpectedKey(p as usize))
    }
}

/// The texts of a parsed axis.
pub open spec fn axis_pair_view(a: Option<(Vec<char>, Option<AxisDim>)>) -> Option<(Seq<char>, Option<(bool, Seq<char>)>)> {
    match a {
        Some((sz, d)) => Some((sz@, axis_dim_view(d))),
        None => None,
    }
}

/// Parses one matrix declaration `ts[lo..hi]` (see [`matrix_decl_from`]).
pub fn parse_matrix_decl(ts: &Vec<AttrTok>, lo: usize, hi: usize) -> (r: Result<MatrixShape, AttrError>)
    requires
        lo <= hi <= ts.len(),
        hi < usize::MAX,
    ensures
        match r {
            Ok(m) => matrix_decl_from(ts@, lo as int, hi as int, None, None, false) == Ok::<((Seq<char>, Option<(bool, Seq<char>)>), (Seq<char>, Option<(bool, Seq<char>)>), bool), AttrError>(matrix_view(m)),
            Err(e) => matrix_decl_from(ts@, lo as int, hi as int, None, None, false) == Err::<((Seq<char>, Option<(bool, Seq<char>)>), (Seq<char>, Option<(bool, Seq<char>)>), bool), AttrError>(e),
        },
{
    let ghost goal = matrix_decl_from(ts@, lo as int, hi as int, None, None, false);
    let mut row: Option<(Vec<char>, Option<AxisDim>)> = None;
    let mut col: Option<(Vec<char>, Option<AxisDim>)> = None;
    let mut dec = false;
    let mut p: usize = lo;
    loop
        invariant
            lo <= p <= hi,
            hi <= ts.len(),
            hi < usize::MAX,
            goal == matrix_decl_from(ts@, lo as int, hi as int, None, None, false),
            matrix_decl_from(ts@, p as int, hi as int, axis_pair_view(row), axis_pair_view(col), dec) == goal,
        decreases hi - p,
    {
        if p >= hi {
            match (row, col) {
                (None, _) => return Err(AttrError::MissingRows),
                (_, None) => return Err(AttrError::MissingCols),
                (Some((rs, rd)), Some((cs, cd))) => {
                    return Ok(MatrixShape { row: rs, col: cs, row_dim: rd, col_dim: cd, decompose: dec });
                },
            }
        }
        let is_ident = match &ts[p] {
            AttrTok::Ident(_) => true,
            _ => false,
        };
        if !is_ident {
            return Err(AttrError::ExpectedIdent);
        }
        let is_rows = word_is(&ts[p], "rows");
        if is_rows || word_is(&ts[p], "cols") {
            let paren = p + 1 < hi && match &ts[p + 1] {
                AttrTok::Open(Delim::Paren) => true,
                _ => false,
            };
            if !paren {
                return Err(AttrError::ExpectedParens);
            }
            let q = group_end_exec(ts, p + 2, hi);
            if q >= hi {
                return Err(AttrError::ExpectedParens);
            }
            let a = match parse_axis(ts, p + 2, q) {
                Ok(a) => a,
                Err(e) => return Err(e),
            };
            let next = if q + 1 < hi && punct_is(&ts[q + 1], ',') { q + 2 } else { q + 1 };
            if is_rows {
                row = Some(a);
            } else {
                col = Some(a);
            }
            p = next;
        } else if word_is(&ts[p], "decompose") {
            let next = if p + 1 < hi && punct_is(&ts[p + 1], ',') { p + 2 } else { p + 1 };
            dec = true;
            p = next;
        } else {
            return Err(AttrError::UnexpectedKey(p));
        }
    }
}

/// The matrices declared by `matrix(..)` groups from position `p` on, after
/// the matrices `acc` read so far; each group is optionally followed by `,`.
pub open spec fn matrices_from(ts: Seq<AttrTok>, p: int, end: int, acc: Seq<((Seq<char>, Option<(bool, Seq<char>)>), (Seq<char>, Option<(bool, Seq<char>)>), bool)>) -> Result<Seq<((Seq<char>, Option<(bool, Seq<char>)>), (Seq<char>, Option<(bool, Seq<char>)>), bool)>, AttrError>
    decreases end - p,
{
    if p >= end {
        Ok(acc)
    } else if !(ts[p] is Ident) {
        Err(AttrError::ExpectedIdent)
    } else if !is_word(ts[p], "matrix"@) {
        Err(AttrError::ExpectedMatrix)
    } else if p + 1 >= end || ts[p + 1] != AttrTok::Open(Delim::Paren) {
        Err(AttrError::ExpectedParens)
    } else {
        let q = group_end(ts, p + 2, end, 1);
        if q >= end {
            Err(AttrError::ExpectedParens)
        } else {
            match matrix_decl_from(ts, p + 2, q, None, None, false) {
                Err(e) => Err(e),
                Ok(m) => {
                    proof {
                        lemma_group_end_bounds(ts, p + 2, end, 1);
                    }
                    let next = if q + 1 < end && is_punct(ts[q + 1], ',') { q + 2 } else { q + 1 };
                    matrices_from(ts, next, end, acc.push(m))
                },
            }
        }
    }
}

/// The parsed matrices, refused when a uniform spec names a unit list.
pub open spec fn matrices_finish(uniform: bool, parsed: Result<Seq<((Seq<char>, Option<(bool, Seq<char>)>), (Seq<char>, Option<(bool, Seq<char>)>), bool)>, AttrError>) -> Result<(bool, Seq<((Seq<char>, Option<(bool, Seq<char>)>), (Seq<char>, Option<(bool, Seq<char>)>), bool)>), AttrError> {
    match parsed {
        Err(e) => Err(e),
        Ok(ms) => if uniform && exists|i: int| 0 <= i < ms.len() && ((#[trigger] ms[i]).0.1 is Some || ms[i].1.1 is Some) {
            Err(AttrError::SublistInUniformMatrix)
        } else {
            Ok((uniform, ms))
        },
    }
}

/// The arguments of a matrix attribute: an optional leading `uniform` (and
/// `,`), then either `matrix(..)` groups or a single declaration.
pub open spec fn matrix_spec_spec(ts: Seq<AttrTok>) -> Result<(bool, Seq<((Seq<char>, Option<(bool, Seq<char>)>), (Seq<char>, Option<(bool, Seq<char>)>), bool)>), AttrError> {
    let n = ts.len() as int;
    let uniform = n > 0 && is_word(ts[0], "uniform"@);
    let p0 = if uniform { if 1 < n && is_punct(ts[1], ',') { 2int } else { 1int } } else { 0int };
    let is_matrix = p0 < n && is_word(ts[p0], "matrix"@);
    let parsed = if is_matrix {
        matrices_from(ts, p0, n, seq![])
    } else {
        match matrix_decl_from(ts, p0, n, None, None, false) {
            Ok(m) => Ok(seq![m]),
            Err(e) => Err(e),
        }
    };
    matrices_finish(uniform, parsed)
}

/// The texts of a parsed matrix spec.
pub open spec fn matrix_spec_view(s: MatrixSpec) -> (bool, Seq<((Seq<char>, Option<(bool, Seq<char>)>), (Seq<char>, Option<(bool, Seq<char>)>), bool)>) {
    (s.uniform, Seq::new(s.shapes.len() as nat, |i: int| matrix_view(s.shapes@[i])))
}

/// Parses the arguments of a matrix attribute (see [`matrix_spec_spec`]).
pub fn parse_matrix_spec(ts: &Vec<AttrTok>) -> (r: Result<MatrixSpec, AttrError>)
    requires
        ts.len() < usize::MAX,
    ensures
        match r {
            Ok(s) => matrix_spec_spec(ts@) == Ok::<(bool, Seq<((Seq<char>, Option<(bool, Seq<char>)>), (Seq<char>, Option<(bool, Seq<char>)>), bool)>), AttrError>(matrix_spec_view(s)),
            Err(e) => matrix_spec_spec(ts@) == Err::<(bool, Seq<((Seq<char>, Option<(bool, Seq<char>)>), (Seq<char>, Option<(bool, Seq<char>)>), bool)>), AttrError>(e),
        },
{
    let n = ts.len();
    let uniform = n > 0 && word_is(&ts[0], "uniform");
    let p0: usize = if uniform { if 1 < n && punct_is(&ts[1], ',') { 2 } else { 1 } } else { 0 };
    let is_matrix = p0 < n && word_is(&ts[p0], "matrix");
    let mut shapes: Vec<MatrixShape> = Vec::new();
    let ghost parsed: Result<Seq<((Seq<char>, Option<(bool, Seq<char>)>), (Seq<char>, Option<(bool, Seq<char>)>), bool)>, AttrError>;
    if is_matrix {
        let ghost goal = matrices_from(ts@, p0 as int, n as int, seq![]);
        proof {
            parsed = goal;
        }
        assert(Seq::new(shapes.len() as nat, |i: int| matrix_view(shapes@[i])) =~= seq![]);
        let mut p = p0;
        while p < n
            invariant
                p0 <= p <= n,
                n == ts.len(),
                n < usize::MAX,
                goal == matrices_from(ts@, p0 as int, n as int, seq![]),
                matrix_spec_spec(ts@) == matrices_finish(uniform, goal),
                matrices_from(ts@, p as int, n as int, Seq::new(shapes.len() as nat, |i: int| matrix_view(shapes@[i]))) == goal,
            decreases n - p,
        {
            let is_ident = match &ts[p] {
                AttrTok::Ident(_) => true,
                _ => false,
            };
            if !is_ident {
                return Err(AttrError::ExpectedIdent);
            }
            if !word_is(&ts[p], "matrix") {
                return Err(AttrError::ExpectedMatrix);
            }
            let paren = p + 1 < n && match &ts[p + 1] {
                AttrTok::Open(Delim::Paren) => true,
                _ => false,
            };
            if !paren {
                return Err(AttrError::ExpectedParens);
            }
            let q = group_end_exec(ts, p + 2, n);
            if q >= n {
                return Err(AttrError::ExpectedParens);
            }
            let m = match parse_matrix_decl(ts, p + 2, q) {
                Ok(m) => m,
                Err(e) => return Err(e),
            };
            let ghost before = Seq::new(shapes.len() as nat, |i: int| matrix_view(shapes@[i]));
            shapes.push(m);
            assert(Seq::new(shapes.len() as nat, |i: int| matrix_view(shapes@[i])) =~= before.push(matrix_view(m)));
            p = if q + 1 < n && punct_is(&ts[q + 1], ',') { q + 2 } else { q + 1 };
        }
        assert(goal == Ok::<Seq<((Seq<char>, Option<(bool, Seq<char>)>), (Seq<char>, Option<(bool, Seq<char>)>), bool)>, AttrError>(Seq::new(shapes.len() as nat, |i: int| matrix_view(shapes@[i]))));
    } else {
        let m = match parse_matrix_decl(ts, p0, n) {
            Ok(m) => m,
            Err(e) => return Err(e),
        };
        shapes.push(m);
        assert(Seq::new(shapes.len() as nat, |i: int| matrix_view(shapes@[i])) =~= seq![matrix_view(m)]);
        proof {
            parsed = Ok(seq![matrix_view(m)]);
        }
    }
    let ghost views_now = Seq::new(shapes.len() as nat, |i: int| matrix_view(shapes@[i]));
    assert(parsed == Ok::<Seq<((Seq<char>, Option<(bool, Seq<char>)>), (Seq<char>, Option<(bool, Seq<char>)>), bool)>, AttrError>(views_now));
    assert(matrix_spec_spec(ts@) == matrices_finish(uniform, parsed));
    if uniform {
        let mut i: usize = 0;
        while i < shapes.len()
            invariant
                i <= shapes.len(),
                uniform,
                matrix_spec_spec(ts@) == matrices_finish(uniform, Ok::<Seq<((Seq<char>, Option<(bool, Seq<char>)>), (Seq<char>, Option<(bool, Seq<char>)>), bool)>, AttrError>(views_now)),
                views_now == Seq::new(shapes.len() as nat, |i: int| matrix_view(shapes@[i])),
                forall|k: int| 0 <= k < i ==> !((#[trigger] views_now[k]).0.1 is Some || views_now[k].1.1 is Some),
            decreases shapes.len() - i,
        {
            if shapes[i].row_dim.is_some() || shapes[i].col_dim.is_some() {
                assert(views_now[i as int].0.1 is Some || views_now[i as int].1.1 is Some);
                return Err(AttrError::SublistInUniformMatrix);
            }
            i += 1;
        }
    }
    let r = MatrixSpec { uniform, shapes };
    assert(matrix_spec_view(r).1 =~= views_now);
    Ok(r)
}

/// Whether a parsed grid's obligations can be formed (see [`shape_ok`]): a
/// square grid needs columns, and the decomposition workspace needs both
/// axes non-empty.
pub fn shape_is_formable(s: &Shape) -> (r: bool)
    ensures
        r == shape_ok(*s),
{
    let rows_ok = match &s.row_dims {
        Some(l) => l.len() == s.rows.len() && l.len() > 0,
        None => true,
    };
    let cols_ok = match &s.col_dims {
        Some(l) => l.len() == s.cols.len() && l.len() > 0,
        None => true,
    };
    let square = is_square_grid(s);
    rows_ok && cols_ok && (!square || s.cols.len() > 0) && (!s.decompose || (s.rows.len() > 0 && s.cols.len() > 0))
}

} // verus!
