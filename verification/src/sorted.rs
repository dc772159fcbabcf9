//! `#[sorted]` on an enum and `#[sorted::check]` on a function: the variants
//! of the enum, and the arms of every `match` in the function, must be in
//! alphabetical order.
use vstd::prelude::*;
use crate::tokens::{
    append_str, append_text, compile_error_tokens, copy_text, ident_text, text_of, toks,
    unit_result, with_error, with_error_tokens, CompileError, ErrorV, Ident, Span, Tok, TokenTree,
};
use crate::syntax::Attribute;

verus! {

// ---------------------------------------------------------------------------
// Ordering of names
// ---------------------------------------------------------------------------

/// `a` sorts strictly before `b`, comparing from position `k` on (the order
/// of `String`: character by character, a proper prefix first).
pub open spec fn text_lt_from(a: Seq<char>, b: Seq<char>, k: int) -> bool
    decreases b.len() - k,
{
    if k < 0 || k >= b.len() {
        false
    } else if k >= a.len() {
        true
    } else if a[k] != b[k] {
        a[k] < b[k]
    } else {
        text_lt_from(a, b, k + 1)
    }
}

/// `a` sorts strictly before `b`.
pub open spec fn text_lt(a: Seq<char>, b: Seq<char>) -> bool {
    text_lt_from(a, b, 0)
}

/// Whether `a` sorts strictly before `b`.
pub fn text_less(a: &Vec<char>, b: &Vec<char>) -> (r: bool)
    ensures
        r == text_lt(a@, b@),
{
    let mut k: usize = 0;
    while k < b.len()
        invariant
            k <= b.len(),
            text_lt(a@, b@) == text_lt_from(a@, b@, k as int),
        decreases b.len() - k,
    {
        if k >= a.len() {
            return true;
        }
        if a[k] != b[k] {
            return a[k] < b[k];
        }
        k = k + 1;
    }
    false
}

/// The values of a sequence of texts.
pub open spec fn texts(s: Seq<Vec<char>>) -> Seq<Seq<char>> {
    Seq::new(s.len(), |i: int| s[i]@)
}

/// Some name after position `i` sorts before the name at `i`.
pub open spec fn out_of_order(names: Seq<Seq<char>>, i: int) -> bool {
    exists|j: int| i < j < names.len() && text_lt(#[trigger] names[j], names[i])
}

/// The first position from `k` on whose name has a smaller name after it.
pub open spec fn first_unsorted(names: Seq<Seq<char>>, k: int) -> Option<int>
    decreases names.len() - k,
{
    if k < 0 || k >= names.len() {
        None
    } else if out_of_order(names, k) {
        Some(k)
    } else {
        first_unsorted(names, k + 1)
    }
}

/// The position of the first smallest name from `i` on.
pub open spec fn least_from(names: Seq<Seq<char>>, i: int) -> int
    decreases names.len() - i,
{
    if i < 0 || i >= names.len() - 1 {
        i
    } else {
        let m = least_from(names, i + 1);
        if text_lt(names[m], names[i]) {
            m
        } else {
            i
        }
    }
}

/// The message `"{a} should sort before {b}"`.
pub open spec fn sort_message(a: Seq<char>, b: Seq<char>) -> Seq<char> {
    a + " should sort before "@ + b
}

/// The first name out of order, and the first of the smallest names after
/// it: where the order breaks, the name that belongs there, and the
/// position of that name.
pub open spec fn misplaced(names: Seq<Seq<char>>) -> Option<(int, int)> {
    match first_unsorted(names, 0) {
        Some(i) => Some((i, least_from(names, i))),
        None => None,
    }
}

/// Whether some later name sorts before the name at `i`.
fn has_smaller_after(names: &Vec<Vec<char>>, i: usize) -> (r: bool)
    requires
        i < names.len(),
    ensures
        r == out_of_order(texts(names@), i as int),
{
    let ghost ns = texts(names@);
    let mut j = i + 1;
    while j < names.len()
        invariant
            ns == texts(names@),
            i < j <= names.len(),
            forall|l: int| i < l < j ==> !text_lt(#[trigger] ns[l], ns[i as int]),
        decreases names.len() - j,
    {
        if text_less(&names[j], &names[i]) {
            assert(text_lt(ns[j as int], ns[i as int]));
            return true;
        }
        j = j + 1;
    }
    false
}

/// The first name out of order and the first smallest name after it.
pub fn find_misplaced(names: &Vec<Vec<char>>) -> (r: Option<(usize, usize)>)
    ensures
        match misplaced(texts(names@)) {
            Some((i, p)) => r == Some((i as usize, p as usize)) && 0 <= i <= p < names.len(),
            None => r is None,
        },
{
    let ghost ns = texts(names@);
    let mut i: usize = 0;
    while i < names.len()
        invariant
            ns == texts(names@),
            i <= names.len(),
            first_unsorted(ns, 0) == first_unsorted(ns, i as int),
        decreases names.len() - i,
    {
        if has_smaller_after(names, i) {
            // the least name from `i` on, scanning from the end
            let mut k: usize = names.len() - 1;
            let mut m: usize = k;
            while k > i
                invariant
                    ns == texts(names@),
                    i <= k < names.len(),
                    m == least_from(ns, k as int),
                    k <= m < names.len(),
                decreases k,
            {
                k = k - 1;
                if !text_less(&names[m], &names[k]) {
                    m = k;
                }
            }
            return Some((i, m));
        }
        i = i + 1;
    }
    None
}

// ---------------------------------------------------------------------------
// #[sorted] on an enum
// ---------------------------------------------------------------------------

/// The item under `#[sorted]`: an enum with its variants, or anything else.
#[derive(Debug)]
pub enum Item {
    Enum { variants: Vec<Ident> },
    Other,
}

/// The displayed names of identifiers.
pub open spec fn ident_names(v: Seq<Ident>) -> Seq<Seq<char>> {
    Seq::new(v.len(), |i: int| ident_text(v[i]@))
}

/// What checking the order of an enum's variants gives: the first variant
/// out of order is reported at the variant that belongs in its place.
pub open spec fn check_sort_spec(vs: Seq<Ident>) -> Result<(), ErrorV> {
    let names = ident_names(vs);
    if vs.len() <= 1 {
        Ok(())
    } else {
        match misplaced(names) {
            None => Ok(()),
            Some((i, p)) => Err(
                ErrorV {
                    start: vs[p].span,
                    end: vs[p].span,
                    message: sort_message(names[p], names[i]),
                },
            ),
        }
    }
}

/// The error message of `#[sorted]` on something other than an enum.
pub open spec fn not_enum_message() -> Seq<char> {
    "expected enum or match expression"@
}

/// What `#[sorted]` reports for an item.
pub open spec fn sort_check_spec(item: Item) -> Result<(), ErrorV> {
    match item {
        Item::Enum { variants } => check_sort_spec(variants@),
        Item::Other => Err(
            ErrorV { start: Span::CallSite, end: Span::CallSite, message: not_enum_message() },
        ),
    }
}

fn texts_of(v: &Vec<Ident>) -> (r: Vec<Vec<char>>)
    ensures
        texts(r@) == ident_names(v@),
{
    let mut r: Vec<Vec<char>> = Vec::new();
    let mut k: usize = 0;
    while k < v.len()
        invariant
            k <= v.len(),
            r@.len() == k,
            texts(r@) == ident_names(v@).take(k as int),
        decreases v.len() - k,
    {
        let ghost prev = r@;
        let t = v[k].text();
        r.push(t);
        assert forall|l: int| 0 <= l < k implies #[trigger] texts(r@)[l] == ident_names(v@)[l] by {
            assert(r@[l] == prev[l]);
            assert(texts(prev)[l] == ident_names(v@).take(k as int)[l]);
        }
        k = k + 1;
        assert(texts(r@) =~= ident_names(v@).take(k as int));
    }
    assert(ident_names(v@).take(v.len() as int) =~= ident_names(v@));
    r
}

/// Checks that the variants are in order.
pub fn check_sort(enum_body: &Vec<Ident>) -> (r: Result<(), CompileError>)
    ensures
        unit_result(r) == check_sort_spec(enum_body@),
{
    if enum_body.len() <= 1 {
        return Ok(());
    }
    let names = texts_of(enum_body);
    match find_misplaced(&names) {
        None => Ok(()),
        Some((i, p)) => {
            let mut message = copy_text(&names[p]);
            append_str(&mut message, " should sort before ");
            append_text(&mut message, &names[i]);
            let s = enum_body[p].span;
            Err(CompileError { start: s, end: s, message })
        },
    }
}

/// `#[sorted]`: enums only, with their variants in order.
pub fn do_sort_check(st_root: &Item) -> (r: Result<(), CompileError>)
    ensures
        unit_result(r) == sort_check_spec(*st_root),
{
    match st_root {
        Item::Enum { variants } => check_sort(variants),
        Item::Other => Err(
            CompileError {
                start: Span::CallSite,
                end: Span::CallSite,
                message: text_of("expected enum or match expression"),
            },
        ),
    }
}

} // verus!

verus! {

// ---------------------------------------------------------------------------
// #[sorted::check] on a function
// ---------------------------------------------------------------------------

/// The pattern of a match arm: a path (a unit, tuple or struct variant), or
/// a pattern of another kind.  `start` and `end` are the spans of its first
/// and last token (of the path, for a path).
#[derive(Debug)]
pub enum ArmPat {
    Path { segments: Vec<Ident>, start: Span, end: Span },
    Unsupported { start: Span, end: Span },
}

/// A `match` expression of the function, in the order in which the
/// function's syntax tree is walked; `descendants` counts the `match`
/// expressions inside it, which follow it in that order.
#[derive(Debug)]
pub struct MatchExpr {
    pub attrs: Vec<Attribute>,
    pub arms: Vec<ArmPat>,
    pub descendants: usize,
}

/// The segments of a path joined by `::`.
pub open spec fn join_segments(segs: Seq<Ident>) -> Seq<char>
    decreases segs.len(),
{
    if segs.len() == 0 {
        seq![]
    } else if segs.len() == 1 {
        ident_text(segs[0]@)
    } else {
        join_segments(segs.drop_last()) + "::"@ + ident_text(segs.last()@)
    }
}

/// The segments of a path joined by `::`.
pub fn join_path_segments(path: &Vec<Ident>) -> (r: Vec<char>)
    ensures
        r@ == join_segments(path@),
{
    let mut ret: Vec<char> = Vec::new();
    let mut k: usize = 0;
    while k < path.len()
        invariant
            k <= path.len(),
            ret@ == join_segments(path@.take(k as int)),
        decreases path.len() - k,
    {
        assert(path@.take(k + 1).drop_last() =~= path@.take(k as int));
        if k > 0 {
            append_str(&mut ret, "::");
        }
        let t = path[k].text();
        append_text(&mut ret, &t);
        k = k + 1;
    }
    assert(path@.take(path.len() as int) =~= path@);
    ret
}

/// The position of the first attribute whose path ends in `sorted`.
pub open spec fn sorted_attr_from(attrs: Seq<Attribute>, k: int) -> Option<usize>
    decreases attrs.len() - k,
{
    if k < 0 || k >= attrs.len() {
        None
    } else if attrs[k].path_last matches Some(x) && ident_text(x@) == "sorted"@ {
        Some(k as usize)
    } else {
        sorted_attr_from(attrs, k + 1)
    }
}

/// The position of the first arm whose pattern is not a path.
pub open spec fn first_unsupported(arms: Seq<ArmPat>, k: int) -> Option<int>
    decreases arms.len() - k,
{
    if k < 0 || k >= arms.len() {
        None
    } else if arms[k] is Unsupported {
        Some(k)
    } else {
        first_unsupported(arms, k + 1)
    }
}

/// The joined paths of the arms.
pub open spec fn arm_names(arms: Seq<ArmPat>) -> Seq<Seq<char>> {
    Seq::new(
        arms.len(),
        |i: int|
            match arms[i] {
                ArmPat::Path { segments, .. } => join_segments(segments@),
                ArmPat::Unsupported { .. } => seq![],
            },
    )
}

/// The spans of the first and last token of an arm's pattern.
pub open spec fn arm_span(a: ArmPat) -> (Span, Span) {
    match a {
        ArmPat::Path { start, end, .. } => (start, end),
        ArmPat::Unsupported { start, end } => (start, end),
    }
}

/// What checking one `match` finds: the first arm that is not a path, else
/// the first arm out of order, reported at the arm that belongs there.
pub open spec fn match_error(m: MatchExpr) -> Option<ErrorV> {
    match first_unsupported(m.arms@, 0) {
        Some(i) => Some(
            ErrorV {
                start: arm_span(m.arms@[i]).0,
                end: arm_span(m.arms@[i]).1,
                message: "unsupported by #[sorted]"@,
            },
        ),
        None => match misplaced(arm_names(m.arms@)) {
            Some((i, p)) => Some(
                ErrorV {
                    start: arm_span(m.arms@[p]).0,
                    end: arm_span(m.arms@[p]).1,
                    message: sort_message(arm_names(m.arms@)[p], arm_names(m.arms@)[i]),
                },
            ),
            None => None,
        },
    }
}

/// The number of `match` expressions skipped after the one at `k` when it
/// has an error: those inside it.
pub open spec fn skipped(ms: Seq<MatchExpr>, k: int) -> int {
    if ms[k].descendants as int <= ms.len() - k - 1 {
        ms[k].descendants as int
    } else {
        ms.len() - k - 1
    }
}

/// The error that the walk from `k` on leaves behind, `err` being the one
/// so far: each error replaces the previous one, and the walk does not
/// enter a `match` that has an error.
pub open spec fn walk_error(ms: Seq<MatchExpr>, k: int, err: Option<ErrorV>) -> Option<ErrorV>
    decreases ms.len() - k,
{
    if k < 0 || k >= ms.len() {
        err
    } else {
        match match_error(ms[k]) {
            Some(e) => walk_error(ms, k + 1 + skipped(ms, k), Some(e)),
            None => walk_error(ms, k + 1, err),
        }
    }
}

/// Which attribute the walk from `k` on removes from each `match`: the
/// first `sorted` attribute of every `match` that it visits.
pub open spec fn walk_removals(ms: Seq<MatchExpr>, k: int) -> Seq<Option<usize>>
    decreases ms.len() - k,
{
    if k < 0 || k >= ms.len() {
        seq![]
    } else {
        let here = sorted_attr_from(ms[k].attrs@, 0);
        if match_error(ms[k]) is Some {
            seq![here] + Seq::new(skipped(ms, k) as nat, |_i: int| None) + walk_removals(
                ms,
                k + 1 + skipped(ms, k),
            )
        } else {
            seq![here] + walk_removals(ms, k + 1)
        }
    }
}

/// The error view of an optional error.
pub open spec fn opt_error(e: Option<CompileError>) -> Option<ErrorV> {
    match e {
        Some(x) => Some(x@),
        None => None,
    }
}

fn sorted_attr_index(attrs: &Vec<Attribute>) -> (r: Option<usize>)
    ensures
        r == sorted_attr_from(attrs@, 0),
{
    let mut k: usize = 0;
    while k < attrs.len()
        invariant
            k <= attrs.len(),
            sorted_attr_from(attrs@, 0) == sorted_attr_from(attrs@, k as int),
        decreases attrs.len() - k,
    {
        if let Some(x) = &attrs[k].path_last {
            if x.is("sorted") {
                return Some(k);
            }
        }
        k = k + 1;
    }
    None
}

fn arm_name_texts(arms: &Vec<ArmPat>) -> (r: Vec<Vec<char>>)
    ensures
        texts(r@) == arm_names(arms@),
{
    let mut r: Vec<Vec<char>> = Vec::new();
    let mut k: usize = 0;
    while k < arms.len()
        invariant
            k <= arms.len(),
            r@.len() == k,
            texts(r@) == arm_names(arms@).take(k as int),
        decreases arms.len() - k,
    {
        let ghost prev = r@;
        let t = match &arms[k] {
            ArmPat::Path { segments, .. } => join_path_segments(segments),
            ArmPat::Unsupported { .. } => Vec::new(),
        };
        r.push(t);
        assert forall|l: int| 0 <= l < k implies #[trigger] texts(r@)[l] == arm_names(arms@)[l] by {
            assert(r@[l] == prev[l]);
            assert(texts(prev)[l] == arm_names(arms@).take(k as int)[l]);
        }
        k = k + 1;
        assert(texts(r@) =~= arm_names(arms@).take(k as int));
    }
    assert(arm_names(arms@).take(arms.len() as int) =~= arm_names(arms@));
    r
}

fn arm_spans(a: &ArmPat) -> (r: (Span, Span))
    ensures
        r == arm_span(*a),
{
    match a {
        ArmPat::Path { start, end, .. } => (*start, *end),
        ArmPat::Unsupported { start, end } => (*start, *end),
    }
}

/// One `match` of the walk: the `sorted` attribute to remove, and the error
/// that the `match` has, if any.
pub fn visit_expr_match(node: &MatchExpr) -> (r: (Option<usize>, Option<CompileError>))
    ensures
        r.0 == sorted_attr_from(node.attrs@, 0),
        opt_error(r.1) == match_error(*node),
{
    let maybe_idx = sorted_attr_index(&node.attrs);
    let mut k: usize = 0;
    while k < node.arms.len()
        invariant
            k <= node.arms.len(),
            first_unsupported(node.arms@, 0) == first_unsupported(node.arms@, k as int),
            maybe_idx == sorted_attr_from(node.attrs@, 0),
        decreases node.arms.len() - k,
    {
        if let ArmPat::Unsupported { start, end } = &node.arms[k] {
            return (
                maybe_idx,
                Some(
                    CompileError {
                        start: *start,
                        end: *end,
                        message: text_of("unsupported by #[sorted]"),
                    },
                ),
            );
        }
        k = k + 1;
    }
    let names = arm_name_texts(&node.arms);
    match find_misplaced(&names) {
        None => (maybe_idx, None),
        Some((i, p)) => {
            let mut message = copy_text(&names[p]);
            append_str(&mut message, " should sort before ");
            append_text(&mut message, &names[i]);
            let (start, end) = arm_spans(&node.arms[p]);
            (maybe_idx, Some(CompileError { start, end, message }))
        },
    }
}

/// `#[sorted::check]`: walks the `match` expressions of the function.  The
/// result is the last error found, and for each `match` the `sorted`
/// attribute to remove from it.
pub fn do_check_check(st_root: &Vec<MatchExpr>) -> (r: (Result<(), CompileError>, Vec<Option<usize>>))
    ensures
        unit_result(r.0) == match walk_error(st_root@, 0, None) {
            Some(e) => Err::<(), ErrorV>(e),
            None => Ok(()),
        },
        r.1@ == walk_removals(st_root@, 0),
{
    let ghost ms = st_root@;
    let mut err: Option<CompileError> = None;
    let mut removals: Vec<Option<usize>> = Vec::new();
    let mut k: usize = 0;
    while k < st_root.len()
        invariant
            ms == st_root@,
            k <= st_root.len(),
            walk_error(ms, 0, None) == walk_error(ms, k as int, opt_error(err)),
            removals@ + walk_removals(ms, k as int) == walk_removals(ms, 0),
        decreases st_root.len() - k,
    {
        let ghost before = removals@;
        let (idx, e) = visit_expr_match(&st_root[k]);
        removals.push(idx);
        match e {
            Some(x) => {
                err = Some(x);
                let left = st_root.len() - k - 1;
                let skip = if st_root[k].descendants <= left {
                    st_root[k].descendants
                } else {
                    left
                };
                let mut n: usize = 0;
                while n < skip
                    invariant
                        n <= skip,
                        removals@ == before.push(idx) + Seq::new(n as nat, |_i: int| None::<usize>),
                    decreases skip - n,
                {
                    removals.push(None);
                    n = n + 1;
                    assert(removals@ =~= before.push(idx) + Seq::new(n as nat, |_i: int| None::<usize>));
                }
                assert(skip == skipped(ms, k as int));
                assert(removals@ + walk_removals(ms, k + 1 + skip) =~= before + walk_removals(ms, k as int));
                k = k + 1 + skip;
            },
            None => {
                assert(removals@ + walk_removals(ms, k + 1) =~= before + walk_removals(ms, k as int));
                k = k + 1;
            },
        }
    }
    assert(removals@ =~= walk_removals(ms, 0));
    let res = match err {
        Some(e) => Err(e),
        None => Ok(()),
    };
    (res, removals)
}

} // verus!

verus! {

/// `#[sorted]`: the item, after an error when it is not an enum with its
/// variants in order.
pub fn sorted(st: &Item, item_tokens: &Vec<TokenTree>) -> (r: Vec<TokenTree>)
    ensures
        toks(r@) == with_error_tokens(sort_check_spec(*st), toks(item_tokens@)),
{
    let res = do_sort_check(st);
    with_error(&res, item_tokens)
}

/// `#[sorted::check]`: the error to put before the function (no tokens when
/// there is none), and for each `match` the `sorted` attribute to remove
/// from it.
pub fn check(st_root: &Vec<MatchExpr>) -> (r: (Vec<TokenTree>, Vec<Option<usize>>))
    ensures
        toks(r.0@) == match walk_error(st_root@, 0, None) {
            Some(e) => compile_error_tokens(e),
            None => seq![],
        },
        r.1@ == walk_removals(st_root@, 0),
{
    let (res, removals) = do_check_check(st_root);
    let empty: Vec<TokenTree> = Vec::new();
    let errs = with_error(&res, &empty);
    assert(toks(empty@) =~= seq![]);
    (errs, removals)
}

} // verus!

verus! {

// ---------------------------------------------------------------------------
// Laws
// ---------------------------------------------------------------------------

/// The names are in order: no name sorts before an earlier one.
pub open spec fn is_sorted(names: Seq<Seq<char>>) -> bool {
    forall|i: int, j: int| 0 <= i < j < names.len() ==> !text_lt(#[trigger] names[j], #[trigger] names[i])
}

proof fn lemma_lt_irreflexive(a: Seq<char>, k: int)
    ensures
        !text_lt_from(a, a, k),
    decreases a.len() - k,
{
    if 0 <= k < a.len() {
        lemma_lt_irreflexive(a, k + 1);
    }
}

proof fn lemma_lt_transitive(a: Seq<char>, b: Seq<char>, c: Seq<char>, k: int)
    requires
        0 <= k,
        text_lt_from(a, b, k),
        text_lt_from(b, c, k),
    ensures
        text_lt_from(a, c, k),
    decreases c.len() - k,
{
    if k < a.len() && k < b.len() && a[k] == b[k] && b[k] == c[k] {
        lemma_lt_transitive(a, b, c, k + 1);
    }
}

proof fn lemma_lt_total(a: Seq<char>, b: Seq<char>, k: int)
    requires
        0 <= k <= a.len(),
        k <= b.len(),
        a.take(k) == b.take(k),
        a != b,
    ensures
        text_lt_from(a, b, k) || text_lt_from(b, a, k),
    decreases a.len() - k,
{
    if k == a.len() && k == b.len() {
        assert(a =~= a.take(k));
        assert(b =~= b.take(k));
    } else if k < a.len() && k < b.len() && a[k] == b[k] {
        assert(a.take(k + 1) =~= a.take(k).push(a[k]));
        assert(b.take(k + 1) =~= b.take(k).push(b[k]));
        lemma_lt_total(a, b, k + 1);
    }
}

/// Strict order of names: irreflexive, transitive, and total on distinct
/// names.
pub proof fn lemma_text_order(a: Seq<char>, b: Seq<char>, c: Seq<char>)
    ensures
        !text_lt(a, a),
        text_lt(a, b) && text_lt(b, c) ==> text_lt(a, c),
        a != b ==> text_lt(a, b) || text_lt(b, a),
{
    lemma_lt_irreflexive(a, 0);
    if text_lt(a, b) && text_lt(b, c) {
        lemma_lt_transitive(a, b, c, 0);
    }
    if a != b {
        assert(a.take(0) =~= b.take(0));
        lemma_lt_total(a, b, 0);
    }
}

proof fn lemma_first_unsorted_none(names: Seq<Seq<char>>, k: int)
    requires
        0 <= k,
    ensures
        first_unsorted(names, k) is None <==> forall|j: int| k <= j < names.len() ==> !out_of_order(names, j),
    decreases names.len() - k,
{
    if k < names.len() {
        lemma_first_unsorted_none(names, k + 1);
    }
}

proof fn lemma_first_unsorted_some(names: Seq<Seq<char>>, k: int)
    requires
        0 <= k,
    ensures
        first_unsorted(names, k) matches Some(i) ==> k <= i < names.len() && out_of_order(names, i)
            && forall|j: int| k <= j < i ==> !out_of_order(names, j),
    decreases names.len() - k,
{
    if k < names.len() {
        lemma_first_unsorted_some(names, k + 1);
    }
}

proof fn lemma_least_from(names: Seq<Seq<char>>, i: int)
    requires
        0 <= i < names.len(),
    ensures
        i <= least_from(names, i) < names.len(),
        forall|j: int| i <= j < names.len() ==> !text_lt(#[trigger] names[j], names[least_from(names, i)]),
    decreases names.len() - i,
{
    if i < names.len() - 1 {
        lemma_least_from(names, i + 1);
        let m = least_from(names, i + 1);
        assert forall|j: int| i <= j < names.len() implies !text_lt(
            #[trigger] names[j],
            names[least_from(names, i)],
        ) by {
            lemma_text_order(names[j], names[m], names[i]);
            lemma_text_order(names[j], names[i], names[m]);
            lemma_text_order(names[i], names[m], names[j]);
        }
    } else {
        assert forall|j: int| i <= j < names.len() implies !text_lt(
            #[trigger] names[j],
            names[least_from(names, i)],
        ) by {
            lemma_text_order(names[i], names[i], names[i]);
        }
    }
}

/// Sorted names have nothing out of order, and the other way round.
pub proof fn lemma_misplaced_none_iff_sorted(names: Seq<Seq<char>>)
    ensures
        misplaced(names) is None <==> is_sorted(names),
{
    lemma_first_unsorted_none(names, 0);
    if is_sorted(names) {
        assert forall|j: int| 0 <= j < names.len() implies !out_of_order(names, j) by {
            if out_of_order(names, j) {
                let l = choose|l: int| j < l < names.len() && text_lt(#[trigger] names[l], names[j]);
                assert(!text_lt(names[l], names[j]));
            }
        }
    } else {
        let (i, j) = choose|i: int, j: int|
            0 <= i < j < names.len() && text_lt(#[trigger] names[j], #[trigger] names[i]);
        assert(out_of_order(names, i));
    }
}

/// Where the order breaks at `i`, the name reported in its place comes
/// after it and sorts strictly before it, and every name before `i` is in
/// order with all the names after it.
pub proof fn lemma_misplaced_some(names: Seq<Seq<char>>)
    ensures
        misplaced(names) matches Some((i, p)) ==> {
            &&& 0 <= i < p < names.len()
            &&& text_lt(names[p], names[i])
            &&& forall|j: int| p < j < names.len() ==> !text_lt(#[trigger] names[j], names[p])
            &&& forall|a: int, b: int|
                0 <= a < i && a < b < names.len() ==> !text_lt(#[trigger] names[b], #[trigger] names[a])
        },
{
    lemma_first_unsorted_some(names, 0);
    if let Some((i, p)) = misplaced(names) {
        lemma_least_from(names, i);
        let j = choose|j: int| i < j < names.len() && text_lt(#[trigger] names[j], names[i]);
        lemma_text_order(names[p], names[j], names[i]);
        lemma_text_order(names[j], names[p], names[i]);
        if names[p] == names[j] {
            assert(text_lt(names[p], names[i]));
        } else {
            assert(!text_lt(names[j], names[p]));
            assert(text_lt(names[p], names[j]));
        }
        lemma_text_order(names[i], names[i], names[i]);
        assert forall|a: int, b: int|
            0 <= a < i && a < b < names.len() implies !text_lt(#[trigger] names[b], #[trigger] names[a]) by {
            assert(!out_of_order(names, a));
        }
    }
}

/// `#[sorted]` accepts an enum exactly when its variants are in order.
pub proof fn lemma_check_sort_ok_iff_sorted(vs: Seq<Ident>)
    ensures
        check_sort_spec(vs) is Ok <==> is_sorted(ident_names(vs)),
{
    lemma_misplaced_none_iff_sorted(ident_names(vs));
}

/// A rejected enum is reported at a later variant whose name sorts before
/// the first variant out of order, in the message
/// "`{later}` should sort before `{earlier}`".
pub proof fn lemma_check_sort_error(vs: Seq<Ident>)
    ensures
        check_sort_spec(vs) matches Err(e) ==> exists|i: int, p: int|
            0 <= i < p < vs.len() && text_lt(ident_names(vs)[p], ident_names(vs)[i]) && e.start
                == vs[p].span && e.message == sort_message(
                ident_names(vs)[p],
                ident_names(vs)[i],
            ),
{
    lemma_misplaced_some(ident_names(vs));
    if let Err(e) = check_sort_spec(vs) {
        let (i, p) = misplaced(ident_names(vs)).unwrap();
        assert(0 <= i < p < vs.len());
    }
}

/// `#[sorted::check]` accepts a `match` exactly when its arms are paths in
/// order.
pub proof fn lemma_match_ok_iff_sorted(m: MatchExpr)
    ensures
        match_error(m) is None <==> first_unsupported(m.arms@, 0) is None && is_sorted(
            arm_names(m.arms@),
        ),
{
    lemma_misplaced_none_iff_sorted(arm_names(m.arms@));
}

} // verus!

verus! {

/// Once the walk over a function's `match` expressions has an error it
/// keeps one: a later `match` may replace it, none clears it.
pub proof fn lemma_walk_error_kept(ms: Seq<MatchExpr>, k: int, err: Option<ErrorV>)
    requires
        err is Some,
    ensures
        walk_error(ms, k, err) is Some,
    decreases ms.len() - k,
{
    if 0 <= k < ms.len() {
        match match_error(ms[k]) {
            Some(e) => lemma_walk_error_kept(ms, k + 1 + skipped(ms, k), Some(e)),
            None => lemma_walk_error_kept(ms, k + 1, err),
        }
    }
}

/// A walk over `match` expressions that are all in order leaves the error
/// it started with as it was.
pub proof fn lemma_walk_sorted_keeps(ms: Seq<MatchExpr>, k: int, err: Option<ErrorV>)
    requires
        forall|j: int| 0 <= j < ms.len() ==> match_error(#[trigger] ms[j]) is None,
    ensures
        walk_error(ms, k, err) == err,
    decreases ms.len() - k,
{
    if 0 <= k < ms.len() {
        assert(match_error(ms[k]) is None);
        lemma_walk_sorted_keeps(ms, k + 1, err);
    }
}

/// `#[sorted::check]` accepts a function exactly when every `match`
/// expression in it, at any depth, has its arms in order: the walk skips
/// only the matches inside a match that has an error, and that error is
/// kept.
pub proof fn lemma_check_ok_iff_all_sorted(ms: Seq<MatchExpr>)
    ensures
        walk_error(ms, 0, None) is None <==> forall|j: int|
            0 <= j < ms.len() ==> match_error(#[trigger] ms[j]) is None,
{
    if forall|j: int| 0 <= j < ms.len() ==> match_error(#[trigger] ms[j]) is None {
        lemma_walk_sorted_keeps(ms, 0, None);
    } else if walk_error(ms, 0, None) is None {
        lemma_walk_finds_errors(ms, 0);
    }
}

proof fn lemma_walk_finds_errors(ms: Seq<MatchExpr>, k: int)
    requires
        0 <= k,
        walk_error(ms, k, None) is None,
    ensures
        forall|j: int| k <= j < ms.len() ==> match_error(#[trigger] ms[j]) is None,
    decreases ms.len() - k,
{
    if k < ms.len() {
        match match_error(ms[k]) {
            Some(e) => {
                lemma_walk_error_kept(ms, k + 1 + skipped(ms, k), Some(e));
            },
            None => {
                lemma_walk_finds_errors(ms, k + 1);
            },
        }
    }
}

/// An error that `#[sorted::check]` reports is the error of one of the
/// function's `match` expressions.
pub proof fn lemma_check_error_is_a_match_error(ms: Seq<MatchExpr>, k: int, err: Option<ErrorV>)
    requires
        0 <= k,
        err matches Some(e) ==> exists|j: int| 0 <= j < ms.len() && match_error(#[trigger] ms[j]) == Some(e),
    ensures
        walk_error(ms, k, err) matches Some(e) ==> exists|j: int|
            0 <= j < ms.len() && match_error(#[trigger] ms[j]) == Some(e),
    decreases ms.len() - k,
{
    if k < ms.len() {
        match match_error(ms[k]) {
            Some(e) => {
                lemma_check_error_is_a_match_error(ms, k + 1 + skipped(ms, k), Some(e));
            },
            None => {
                lemma_check_error_is_a_match_error(ms, k + 1, err);
            },
        }
    }
}

/// The item after the error of a check is well nested when the item is.
pub proof fn lemma_with_error_balanced(res: Result<(), ErrorV>, item: Seq<Tok>)
    requires
        crate::nesting::balanced(item),
    ensures
        crate::nesting::balanced(with_error_tokens(res, item)),
{
    broadcast use crate::nesting::group_balanced;

    if let Err(e) = res {
        let c = compile_error_tokens(e);
        let b = seq![crate::tokens::Delimiter::Brace];
        assert(crate::nesting::nest_from(c, 5, seq![]) == Some(Seq::<crate::tokens::Delimiter>::empty()));
        assert(b.drop_last() =~= Seq::<crate::tokens::Delimiter>::empty());
        assert(crate::nesting::nest_from(c, 4, b) == Some(Seq::<crate::tokens::Delimiter>::empty()));
        assert(crate::nesting::nest_from(c, 3, b) == Some(Seq::<crate::tokens::Delimiter>::empty()));
        assert(Seq::<crate::tokens::Delimiter>::empty().push(crate::tokens::Delimiter::Brace) =~= b);
        assert(crate::nesting::nest_from(c, 2, seq![]) == Some(Seq::<crate::tokens::Delimiter>::empty()));
        assert(crate::nesting::nest_from(c, 1, seq![]) == Some(Seq::<crate::tokens::Delimiter>::empty()));
        assert(crate::nesting::balanced(c));
    }
}

} // verus!
