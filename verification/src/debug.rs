//! `#[derive(CustomDebug)]`: a `Debug` impl that prints every field, with
//! `#[debug = "fmt"]` choosing a field's format.  Type parameters get a
//! `Debug` bound unless they only appear inside `PhantomData` or as the head
//! of an associated type (which gets a `where` bound of its own); an
//! attribute `#[debug(bound = "...")]` on the struct replaces all of that:
//! its text, which syn must read as a `where` predicate, is added to the
//! struct's `where` clause as it is written.
use vstd::prelude::*;
use crate::tokens::{
    arrow, concat, emit_arrow, emit_empty_parens, emit_std_path, empty_parens, extend_tokens,
    group, ident_text, joint, lemma_concat_push, punct, push_close, push_ident, push_open,
    push_punct, push_str_lit, push_word, std_path, str_lit, text_eq, toks, word, copy_text,
    Delimiter, Expansion, ExpansionV, Ident, IdentV, Tok, TokenTree,
};
use crate::syntax::{
    last_segment, path_is_ident_spec, token_lists, ty_tokens, Data, DeriveInput, Field, Fields,
    GenericArgument, GenericParam, GenericParamV, Generics, GenericsV, Lit, Meta, NestedMeta,
    PathArguments, Ty,
};
use crate::generics::{
    copy_token_lists, copy_tokens, generics_balanced, generics_tokens, impl_generics,
    lemma_split_balanced, param_balanced, ty_generics, where_clause, where_tokens,
};
use crate::builder::named_fields;

verus! {

// ---------------------------------------------------------------------------
// Fields and attributes
// ---------------------------------------------------------------------------

/// The named fields of the input, when it is a struct with named fields.
pub fn get_all_struct_fields(st: &DeriveInput) -> (r: Option<&Vec<Field>>)
    ensures
        r matches Some(v) ==> named_fields(*st) == Some(v@),
        r is None ==> named_fields(*st) is None,
{
    match &st.data {
        Data::Struct(Fields::Named(v)) => Some(v),
        _ => None,
    }
}

/// The format of `#[debug = "fmt"]` when it is the field's last attribute.
pub open spec fn field_format(f: Field) -> Option<Seq<char>> {
    if f.attrs@.len() == 0 {
        None
    } else {
        match f.attrs@.last().meta {
            Some(Meta::NameValue { path, lit: Lit::Str { value, .. } }) => if path_is_ident_spec(
                path,
                "debug"@,
            ) {
                Some(value@)
            } else {
                None
            },
            _ => None,
        }
    }
}

/// The format a field's last attribute `#[debug = "..."]` gives it.
pub fn get_inert_attribute_of_field(field: &Field) -> (r: Option<Vec<char>>)
    ensures
        match r {
            Some(v) => field_format(*field) == Some(v@),
            None => field_format(*field) is None,
        },
{
    if field.attrs.len() == 0 {
        return None;
    }
    let inert_attr = &field.attrs[field.attrs.len() - 1];
    if let Some(Meta::NameValue { path, lit: Lit::Str { value, .. } }) = &inert_attr.meta {
        if path.is_ident("debug") {
            return Some(copy_text(value));
        }
    }
    None
}

/// The bound of `#[...(..., bound = "...")]` when that is the last item of
/// the struct's last attribute.
pub open spec fn escape_hatch(st: DeriveInput) -> Option<Seq<char>> {
    if st.attrs@.len() == 0 {
        None
    } else {
        match st.attrs@.last().meta {
            Some(Meta::List { nested, .. }) => if nested@.len() == 0 {
                None
            } else {
                match nested@.last() {
                    NestedMeta::Meta(Meta::NameValue { path, lit: Lit::Str { value, .. } }) => {
                        if path_is_ident_spec(path, "bound"@) {
                            Some(value@)
                        } else {
                            None
                        }
                    },
                    _ => None,
                }
            },
            _ => None,
        }
    }
}

/// The bound written on the struct as `#[debug(bound = "...")]`.
pub fn get_struct_escape_hatch(st: &DeriveInput) -> (r: Option<Vec<char>>)
    ensures
        match r {
            Some(v) => escape_hatch(*st) == Some(v@),
            None => escape_hatch(*st) is None,
        },
{
    if st.attrs.len() == 0 {
        return None;
    }
    let inert_attr = &st.attrs[st.attrs.len() - 1];
    if let Some(Meta::List { nested, .. }) = &inert_attr.meta {
        if nested.len() > 0 {
            if let NestedMeta::Meta(Meta::NameValue { path, lit: Lit::Str { value, .. } }) =
                &nested[nested.len() - 1] {
                if path.is_ident("bound") {
                    return Some(copy_text(value));
                }
            }
        }
    }
    None
}

// ---------------------------------------------------------------------------
// Bounds
// ---------------------------------------------------------------------------

/// The type argument of the last segment of a path type when it is the last
/// angle-bracketed argument and itself a path.
pub open spec fn last_type_argument(t: Ty) -> Option<Ty> {
    match last_segment(t) {
        Some(s) => match s.arguments {
            PathArguments::AngleBracketed(args) => if args@.len() == 0 {
                None
            } else {
                match args@.last() {
                    GenericArgument::Type(a) => Some(a),
                    GenericArgument::Other => None,
                }
            },
            _ => None,
        },
        None => None,
    }
}

/// For `...PhantomData<...::X>`, the name `X`.
pub open spec fn phantom_param(t: Ty) -> Option<Seq<char>> {
    match last_segment(t) {
        Some(s) => if ident_text(s.ident@) == "PhantomData"@ {
            match last_type_argument(t) {
                Some(a) => match last_segment(a) {
                    Some(x) => Some(ident_text(x.ident@)),
                    None => None,
                },
                None => None,
            }
        } else {
            None
        },
        None => None,
    }
}

/// For `...<A::B...>` (a last type argument whose path has two segments or
/// more), the head `A` and the whole argument.
pub open spec fn assoc_type(t: Ty) -> Option<(Seq<char>, Ty)> {
    match last_type_argument(t) {
        Some(a) => match a {
            Ty::Path { segments, .. } => if segments@.len() >= 2 {
                Some((ident_text(segments@[0].ident@), a))
            } else {
                None
            },
            Ty::Other { .. } => None,
        },
        None => None,
    }
}

/// The names of the type parameters used through `PhantomData`, field by
/// field.
pub open spec fn phantom_names(fs: Seq<Field>) -> Seq<Seq<char>>
    decreases fs.len(),
{
    if fs.len() == 0 {
        seq![]
    } else {
        phantom_names(fs.drop_last()) + match phantom_param(fs.last().ty) {
            Some(x) => seq![x],
            None => seq![],
        }
    }
}

/// The associated types of the fields, field by field: their head and
/// their type.
pub open spec fn assoc_types(fs: Seq<Field>) -> Seq<(Seq<char>, Ty)>
    decreases fs.len(),
{
    if fs.len() == 0 {
        seq![]
    } else {
        assoc_types(fs.drop_last()) + match assoc_type(fs.last().ty) {
            Some(x) => seq![x],
            None => seq![],
        }
    }
}

/// A type parameter named `x` gets no `Debug` bound.
pub open spec fn skips_param(fs: Seq<Field>, x: Seq<char>) -> bool {
    ||| phantom_names(fs).contains(x)
    ||| exists|i: int| 0 <= i < assoc_types(fs).len() && (#[trigger] assoc_types(fs)[i]).0 == x
}

/// Which generic parameters get a `Debug` bound: the type parameters that
/// are not skipped.
pub open spec fn debug_bounds(params: Seq<GenericParamV>, fs: Seq<Field>) -> Seq<bool> {
    Seq::new(
        params.len(),
        |i: int|
            match params[i] {
                GenericParamV::Type { ident, .. } => !skips_param(fs, ident_text(ident)),
                _ => false,
            },
    )
}

/// `T: std::fmt::Debug` for a type `T`.
pub open spec fn debug_predicate(t: Ty) -> Seq<Tok> {
    ty_tokens(t) + seq![punct(':')] + std_path("fmt"@, "Debug"@)
}

/// The `where` predicates, one per associated type in field order.
pub open spec fn debug_predicates(fs: Seq<Field>) -> Seq<Seq<Tok>> {
    Seq::new(assoc_types(fs).len(), |i: int| debug_predicate(assoc_types(fs)[i].1))
}

/// A type parameter with `std::fmt::Debug` pushed onto its bounds when `b`.
pub open spec fn with_debug_bound(p: GenericParamV, b: bool) -> GenericParamV {
    match p {
        GenericParamV::Type { attrs, ident, bounds, .. } => if b {
            GenericParamV::Type {
                attrs,
                ident,
                bounds: bounds.push(std_path("fmt"@, "Debug"@)),
                bounds_trailing: false,
            }
        } else {
            p
        },
        _ => p,
    }
}

/// The struct's generics with `Debug` bounds on the type parameters that
/// need one, and the predicates of the associated types after the struct's
/// own `where` predicates.
pub open spec fn bounded_generics(g: GenericsV, fs: Seq<Field>) -> GenericsV {
    GenericsV {
        params: Seq::new(
            g.params.len(),
            |i: int| with_debug_bound(g.params[i], debug_bounds(g.params, fs)[i]),
        ),
        params_trailing: g.params_trailing,
        predicates: g.predicates + debug_predicates(fs),
        where_trailing: g.where_trailing && debug_predicates(fs).len() == 0,
    }
}

/// The struct's generics, bounds untouched, with the predicate of the escape
/// hatch after its own `where` predicates.
pub open spec fn hatch_generics(g: GenericsV, pred: Seq<Tok>) -> GenericsV {
    GenericsV {
        params: g.params,
        params_trailing: g.params_trailing,
        predicates: g.predicates.push(pred),
        where_trailing: false,
    }
}

fn last_type_argument_of(t: &Ty) -> (r: Option<&Ty>)
    ensures
        match last_type_argument(*t) {
            Some(a) => r matches Some(x) && *x == a,
            None => r is None,
        },
{
    match t.last_segment() {
        Some(s) => match &s.arguments {
            PathArguments::AngleBracketed(args) => {
                if args.len() == 0 {
                    None
                } else {
                    match &args[args.len() - 1] {
                        GenericArgument::Type(a) => Some(a),
                        GenericArgument::Other => None,
                    }
                }
            },
            _ => None,
        },
        None => None,
    }
}

fn phantom_param_of(t: &Ty) -> (r: Option<Vec<char>>)
    ensures
        match phantom_param(*t) {
            Some(x) => r matches Some(v) && v@ == x,
            None => r is None,
        },
{
    match t.last_segment() {
        Some(s) => {
            if !s.ident.is("PhantomData") {
                return None;
            }
            match last_type_argument_of(t) {
                Some(a) => match a.last_segment() {
                    Some(x) => Some(x.ident.text()),
                    None => None,
                },
                None => None,
            }
        },
        None => None,
    }
}

fn assoc_type_of(t: &Ty) -> (r: Option<(Vec<char>, &Ty)>)
    ensures
        match assoc_type(*t) {
            Some((h, a)) => r matches Some((v, x)) && v@ == h && *x == a,
            None => r is None,
        },
{
    match last_type_argument_of(t) {
        Some(a) => match a {
            Ty::Path { segments, .. } => {
                if segments.len() >= 2 {
                    Some((segments[0].ident.text(), a))
                } else {
                    None
                }
            },
            Ty::Other { .. } => None,
        },
        None => None,
    }
}

fn contains_text(list: &Vec<Vec<char>>, t: &Vec<char>) -> (r: bool)
    ensures
        r == crate::sorted::texts(list@).contains(t@),
{
    let ghost l = crate::sorted::texts(list@);
    let mut k: usize = 0;
    while k < list.len()
        invariant
            l == crate::sorted::texts(list@),
            k <= list.len(),
            forall|j: int| 0 <= j < k ==> l[j] != t@,
        decreases list.len() - k,
    {
        if text_eq(&list[k], t) {
            assert(l[k as int] == t@);
            return true;
        }
        k = k + 1;
    }
    false
}

fn emit_debug_predicate(out: &mut Vec<TokenTree>, t: &Ty)
    ensures
        toks(final(out)@) == toks(old(out)@) + debug_predicate(*t),
{
    let ghost o = toks(out@);
    extend_tokens(out, t.tokens());
    push_punct(out, ':', false);
    emit_std_path(out, "fmt", "Debug");
    assert(toks(out@) =~= o + debug_predicate(*t));
}

/// Which parameters get a `Debug` bound, and the `where` predicates of the
/// associated types.
fn debug_plan(st: &DeriveInput) -> (r: (Vec<bool>, Vec<Vec<TokenTree>>))
    requires
        named_fields(*st) is Some,
    ensures
        r.0@ == debug_bounds(st.generics@.params, named_fields(*st).unwrap()),
        token_lists(r.1@) == debug_predicates(named_fields(*st).unwrap()),
{
    let fields = match get_all_struct_fields(st) {
        Some(f) => f,
        None => {
            return (Vec::new(), Vec::new());
        },
    };
    let ghost fs = fields@;
    let mut phantoms: Vec<Vec<char>> = Vec::new();
    let mut heads: Vec<Vec<char>> = Vec::new();
    let mut predicates: Vec<Vec<TokenTree>> = Vec::new();
    let mut k: usize = 0;
    while k < fields.len()
        invariant
            fs == fields@,
            k <= fields.len(),
            crate::sorted::texts(phantoms@) == phantom_names(fs.take(k as int)),
            heads@.len() == assoc_types(fs.take(k as int)).len(),
            forall|j: int|
                0 <= j < heads@.len() ==> #[trigger] heads@[j]@ == assoc_types(fs.take(k as int))[j].0,
            token_lists(predicates@) == debug_predicates(fs.take(k as int)),
            predicates@.len() == assoc_types(fs.take(k as int)).len(),
        decreases fields.len() - k,
    {
        let f = &fields[k];
        assert(fs.take(k + 1).drop_last() =~= fs.take(k as int));
        assert(fs.take(k + 1).last() == fs[k as int]);
        let ghost pre_p = phantoms@;
        let ghost pre_h = heads@;
        let ghost pre_q = predicates@;
        match phantom_param_of(&f.ty) {
            Some(x) => {
                phantoms.push(x);
                assert(crate::sorted::texts(phantoms@) =~= crate::sorted::texts(pre_p) + seq![
                    phantoms@.last()@,
                ]);
            },
            None => {},
        }
        assert(crate::sorted::texts(phantoms@) =~= phantom_names(fs.take(k + 1)));
        match assoc_type_of(&f.ty) {
            Some((h, a)) => {
                heads.push(h);
                let mut p: Vec<TokenTree> = Vec::new();
                emit_debug_predicate(&mut p, a);
                assert(toks(p@) =~= debug_predicate(*a));
                predicates.push(p);
                let ghost at = assoc_types(fs.take(k as int));
                assert(assoc_types(fs.take(k + 1)) == at + seq![
                    assoc_type(fs[k as int].ty).unwrap(),
                ]);
                assert forall|j: int| 0 <= j < predicates@.len() implies #[trigger] token_lists(
                    predicates@,
                )[j] == debug_predicates(fs.take(k + 1))[j] by {
                    if j < pre_q.len() {
                        assert(predicates@[j] == pre_q[j]);
                        assert(token_lists(pre_q)[j] == debug_predicates(fs.take(k as int))[j]);
                        assert(assoc_types(fs.take(k + 1))[j] == at[j]);
                    }
                }
                assert(token_lists(predicates@) =~= debug_predicates(fs.take(k + 1)));
            },
            None => {
                assert(assoc_types(fs.take(k + 1)) =~= assoc_types(fs.take(k as int)));
                assert(token_lists(predicates@) =~= debug_predicates(fs.take(k + 1)));
            },
        }
        k = k + 1;
    }
    assert(fs.take(fs.len() as int) =~= fs);
    let params = &st.generics.params;
    let ghost ps = st.generics@.params;
    let mut debug_bound: Vec<bool> = Vec::new();
    let mut k: usize = 0;
    while k < params.len()
        invariant
            ps == st.generics@.params,
            params == &st.generics.params,
            fs == fields@,
            named_fields(*st) == Some(fs),
            k <= params.len(),
            crate::sorted::texts(phantoms@) == phantom_names(fs),
            heads@.len() == assoc_types(fs).len(),
            forall|j: int| 0 <= j < heads@.len() ==> #[trigger] heads@[j]@ == assoc_types(fs)[j].0,
            debug_bound@ == debug_bounds(ps, fs).take(k as int),
        decreases params.len() - k,
    {
        assert(ps[k as int] == params@[k as int]@);
        let b = match &params[k] {
            GenericParam::Type { ident, .. } => {
                let t = ident.text();
                let in_phantoms = contains_text(&phantoms, &t);
                let in_heads = contains_text(&heads, &t);
                proof {
                    if in_heads {
                        let j = choose|j: int|
                            0 <= j < crate::sorted::texts(heads@).len()
                                && crate::sorted::texts(heads@)[j] == t@;
                        assert(heads@[j]@ == assoc_types(fs)[j].0);
                    }
                    if exists|i: int| 0 <= i < assoc_types(fs).len() && (#[trigger] assoc_types(fs)[i]).0 == t@ {
                        let i = choose|i: int|
                            0 <= i < assoc_types(fs).len() && (#[trigger] assoc_types(fs)[i]).0 == t@;
                        assert(heads@[i]@ == t@);
                        assert(crate::sorted::texts(heads@)[i] == t@);
                    }
                }
                !(in_phantoms || in_heads)
            },
            _ => false,
        };
        debug_bound.push(b);
        k = k + 1;
        assert(debug_bound@ =~= debug_bounds(ps, fs).take(k as int));
    }
    assert(debug_bounds(ps, fs).take(ps.len() as int) =~= debug_bounds(ps, fs));
    (debug_bound, predicates)
}

/// The struct's generics with a `Debug` bound on each type parameter that
/// needs one and a `where` predicate for each associated type of a field.
pub fn inject_trait_bound(st: &DeriveInput) -> (r: Generics)
    requires
        named_fields(*st) is Some,
    ensures
        r@ == bounded_generics(st.generics@, named_fields(*st).unwrap()),
{
    let ghost fs = named_fields(*st).unwrap();
    let ghost g = st.generics@;
    let (debug_bound, extra) = debug_plan(st);
    let mut params: Vec<GenericParam> = Vec::new();
    let mut k: usize = 0;
    while k < st.generics.params.len()
        invariant
            g == st.generics@,
            named_fields(*st) is Some,
            fs == named_fields(*st).unwrap(),
            debug_bound@ == debug_bounds(g.params, fs),
            k <= st.generics.params.len(),
            params@.len() == k,
            forall|j: int|
                0 <= j < k ==> (#[trigger] params@[j])@ == with_debug_bound(
                    g.params[j],
                    debug_bounds(g.params, fs)[j],
                ),
        decreases st.generics.params.len() - k,
    {
        let p = &st.generics.params[k];
        assert(g.params[k as int] == p@);
        let q = match p {
            GenericParam::Type { attrs, ident, bounds, bounds_trailing } => {
                if debug_bound[k] {
                    let mut bs = copy_token_lists(bounds);
                    let mut d: Vec<TokenTree> = Vec::new();
                    emit_std_path(&mut d, "fmt", "Debug");
                    assert(toks(d@) =~= std_path("fmt"@, "Debug"@));
                    let ghost before = bs@;
                    bs.push(d);
                    assert(token_lists(bs@) =~= token_lists(before).push(std_path("fmt"@, "Debug"@)));
                    GenericParam::Type {
                        attrs: copy_tokens(attrs),
                        ident: ident.copy(),
                        bounds: bs,
                        bounds_trailing: false,
                    }
                } else {
                    p.copy()
                }
            },
            _ => p.copy(),
        };
        params.push(q);
        k = k + 1;
    }
    let mut predicates = copy_token_lists(&st.generics.predicates);
    let ghost before = predicates@;
    let mut j: usize = 0;
    while j < extra.len()
        invariant
            j <= extra.len(),
            token_lists(predicates@) == token_lists(before) + token_lists(extra@).take(j as int),
        decreases extra.len() - j,
    {
        let c = copy_tokens(&extra[j]);
        let ghost prev = predicates@;
        predicates.push(c);
        assert(token_lists(predicates@) =~= token_lists(prev).push(toks(c@)));
        assert(token_lists(extra@).take(j + 1) =~= token_lists(extra@).take(j as int).push(
            toks(extra@[j as int]@),
        ));
        j = j + 1;
        assert(token_lists(predicates@) =~= token_lists(before) + token_lists(extra@).take(j as int));
    }
    assert(token_lists(extra@).take(extra.len() as int) =~= token_lists(extra@));
    let r = Generics {
        params,
        params_trailing: st.generics.params_trailing,
        predicates,
        where_trailing: st.generics.where_trailing && extra.len() == 0,
    };
    assert(r@.params =~= bounded_generics(g, fs).params);
    assert(r@.predicates =~= bounded_generics(g, fs).predicates);
    r
}

/// Whether syn reads the text as a `where` predicate.
pub uninterp spec fn where_predicate_parses(text: Seq<char>) -> bool;

/// The text holds no `c` directly followed by a double quote, or by `r` and
/// a double quote or `#`: the openings of the C-string literals on which
/// the literal parser of syn panics.
pub open spec fn no_c_string(text: Seq<char>) -> bool {
    forall|i: int| 0 <= i < text.len() ==> !c_string_at(text, i)
}

/// A C-string literal opens at `i`.
pub open spec fn c_string_at(text: Seq<char>, i: int) -> bool {
    let quote = '\x22';
    &&& i + 1 < text.len()
    &&& text[i] == 'c'
    &&& (text[i + 1] == quote || (text[i + 1] == 'r' && i + 2 < text.len() && (text[i + 2]
        == quote || text[i + 2] == '#')))
}

/// Whether syn reads the text as a `where` predicate: calls
/// `syn::parse_str::<syn::WherePredicate>` on it.  The contract claims only
/// that the outcome is the named function of the text.  Without a C-string
/// literal, the literal parser of syn does not panic on any token of the text.
#[verifier::external_body]
pub fn parses_as_where_predicate(text: &Vec<char>) -> (r: bool)
    requires
        no_c_string(text@),
    ensures
        r == where_predicate_parses(text@),
{
    let s: String = text.iter().collect();
    syn::parse_str::<syn::WherePredicate>(&s).is_ok()
}

fn has_no_c_string(text: &Vec<char>) -> (r: bool)
    ensures
        r == no_c_string(text@),
{
    let n = text.len();
    let quote = '\x22';
    let mut i: usize = 0;
    while i < n
        invariant
            n == text.len(),
            quote == '\x22',
            forall|j: int| 0 <= j < i ==> !c_string_at(text@, j),
        decreases n - i,
    {
        if text[i] == 'c' && i + 1 < n {
            let c1 = text[i + 1];
            if c1 == quote {
                assert(c_string_at(text@, i as int));
                return false;
            }
            if c1 == 'r' && i + 2 < n {
                let c2 = text[i + 2];
                if c2 == quote || c2 == '#' {
                    assert(c_string_at(text@, i as int));
                    return false;
                }
            }
        }
        assert(!c_string_at(text@, i as int));
        i = i + 1;
    }
    true
}

/// The predicate of the escape hatch: the text as it is written, lexed at
/// the call site; syn prints a predicate it parsed as the tokens it read.
pub open spec fn hatch_predicate(text: Seq<char>) -> Seq<Tok> {
    seq![Tok::Verbatim { text }]
}

/// The struct's generics with the escape hatch, the text of
/// `#[debug(bound = "...")]` parsed as a `where` predicate, after its own
/// `where` predicates; the bounds are left as they are.
pub fn inject_escape_hatch(st: &DeriveInput, hatch_lit: &Vec<char>) -> (r: Generics)
    requires
        no_c_string(hatch_lit@),
        where_predicate_parses(hatch_lit@),
    ensures
        r@ == hatch_generics(st.generics@, hatch_predicate(hatch_lit@)),
{
    let mut pred: Vec<TokenTree> = Vec::new();
    pred.push(TokenTree::Verbatim { text: copy_text(hatch_lit) });
    assert(toks(pred@) =~= hatch_predicate(hatch_lit@));
    let ghost g = st.generics@;
    let mut params: Vec<GenericParam> = Vec::new();
    let mut k: usize = 0;
    while k < st.generics.params.len()
        invariant
            g == st.generics@,
            k <= st.generics.params.len(),
            params@.len() == k,
            forall|j: int| 0 <= j < k ==> (#[trigger] params@[j])@ == g.params[j],
        decreases st.generics.params.len() - k,
    {
        assert(g.params[k as int] == st.generics.params@[k as int]@);
        params.push(st.generics.params[k].copy());
        k = k + 1;
    }
    let mut predicates = copy_token_lists(&st.generics.predicates);
    let ghost before = predicates@;
    predicates.push(copy_tokens(&pred));
    assert(token_lists(predicates@) =~= token_lists(before).push(toks(pred@)));
    let r = Generics {
        params,
        params_trailing: st.generics.params_trailing,
        predicates,
        where_trailing: false,
    };
    assert(r@.params =~= g.params);
    r
}

} // verus!

verus! {

// ---------------------------------------------------------------------------
// The impl
// ---------------------------------------------------------------------------

/// `.field("name", &self.name)`, or with the field's format
/// `.field("name", &format_args!("fmt", &self.name))`.
pub open spec fn field_fmt(f: Field) -> Seq<Tok> {
    let name_lit = str_lit(ident_text(f.ident@));
    let value = seq![punct('&'), word("self"@), punct('.'), Tok::Ident(f.ident@)];
    match field_format(f) {
        Some(fmt) => seq![punct('.'), word("field"@)] + group(
            Delimiter::Parenthesis,
            seq![name_lit, punct(','), punct('&'), word("format_args"@), punct('!')] + group(
                Delimiter::Parenthesis,
                seq![str_lit(fmt), punct(',')] + value,
            ),
        ),
        None => seq![punct('.'), word("field"@)] + group(
            Delimiter::Parenthesis,
            seq![name_lit, punct(',')] + value,
        ),
    }
}

pub open spec fn fmt_fields(fs: Seq<Field>) -> Seq<Seq<Tok>> {
    Seq::new(fs.len(), |i: int| field_fmt(fs[i]))
}

/// `fn fmt(&self, f: &mut std::fmt::Formatter<'_>) -> std::fmt::Result`
pub open spec fn fmt_signature() -> Seq<Tok> {
    seq![word("fn"@), word("fmt"@)] + group(
        Delimiter::Parenthesis,
        seq![
            punct('&'),
            word("self"@),
            punct(','),
            word("f"@),
            punct(':'),
            punct('&'),
            word("mut"@),
        ] + std_path("fmt"@, "Formatter"@) + seq![punct('<'), joint('\''), word("_"@), punct('>')],
    ) + arrow() + std_path("fmt"@, "Result"@)
}

/// `f.debug_struct("Name") .field(...) ... .finish()`
pub open spec fn fmt_block(name: IdentV, fs: Seq<Field>) -> Seq<Tok> {
    seq![word("f"@), punct('.'), word("debug_struct"@)] + group(
        Delimiter::Parenthesis,
        seq![str_lit(ident_text(name))],
    ) + concat(fmt_fields(fs)) + seq![punct('.'), word("finish"@)] + empty_parens()
}

/// The whole impl of `std::fmt::Debug`.
pub open spec fn debug_impl(
    name: IdentV,
    fs: Seq<Field>,
    ig: Seq<Tok>,
    tg: Seq<Tok>,
    wc: Seq<Tok>,
) -> Seq<Tok> {
    seq![word("impl"@)] + ig + std_path("fmt"@, "Debug"@) + seq![word("for"@), Tok::Ident(name)]
        + tg + wc + group(
        Delimiter::Brace,
        fmt_signature() + group(Delimiter::Brace, fmt_block(name, fs)),
    )
}

/// The impl of `std::fmt::Debug` with the generics `g` split for it.
pub open spec fn debug_impl_with(name: IdentV, fs: Seq<Field>, g: GenericsV) -> Seq<Tok> {
    debug_impl(name, fs, generics_tokens(g, false), generics_tokens(g, true), where_tokens(g))
}

/// Whether the text of an escape hatch is one that syn reads as a `where`
/// predicate (a text with a C-string opening never is: syn panics or
/// refuses it, but for such an opening inside a string literal).
pub open spec fn hatch_parses(text: Seq<char>) -> bool {
    no_c_string(text) && where_predicate_parses(text)
}

/// What `#[derive(CustomDebug)]` makes of a struct: a panic unless it has
/// named fields, or when its escape hatch does not parse as a `where`
/// predicate.
pub open spec fn debug_spec(st: DeriveInput) -> ExpansionV {
    match named_fields(st) {
        None => ExpansionV::Panic,
        Some(fs) => match escape_hatch(st) {
            Some(h) => if hatch_parses(h) {
                let g = hatch_generics(st.generics@, hatch_predicate(h));
                ExpansionV::Tokens(debug_impl_with(st.ident@, fs, g))
            } else {
                ExpansionV::Panic
            },
            None => ExpansionV::Tokens(
                debug_impl_with(st.ident@, fs, bounded_generics(st.generics@, fs)),
            ),
        },
    }
}

fn emit_field_fmt(out: &mut Vec<TokenTree>, f: &Field)
    ensures
        toks(final(out)@) == toks(old(out)@) + field_fmt(*f),
{
    let ghost o = toks(out@);
    let format = get_inert_attribute_of_field(f);
    push_punct(out, '.', false);
    push_word(out, "field");
    push_open(out, Delimiter::Parenthesis);
    push_str_lit(out, f.ident.text());
    push_punct(out, ',', false);
    match format {
        Some(fmt) => {
            push_punct(out, '&', false);
            push_word(out, "format_args");
            push_punct(out, '!', false);
            push_open(out, Delimiter::Parenthesis);
            push_str_lit(out, fmt);
            push_punct(out, ',', false);
            push_punct(out, '&', false);
            push_word(out, "self");
            push_punct(out, '.', false);
            push_ident(out, &f.ident);
            push_close(out, Delimiter::Parenthesis);
        },
        None => {
            push_punct(out, '&', false);
            push_word(out, "self");
            push_punct(out, '.', false);
            push_ident(out, &f.ident);
        },
    }
    push_close(out, Delimiter::Parenthesis);
    assert(toks(out@) =~= o + field_fmt(*f));
}

fn emit_fmt_signature(out: &mut Vec<TokenTree>)
    ensures
        toks(final(out)@) == toks(old(out)@) + fmt_signature(),
{
    let ghost o = toks(out@);
    push_word(out, "fn");
    push_word(out, "fmt");
    push_open(out, Delimiter::Parenthesis);
    push_punct(out, '&', false);
    push_word(out, "self");
    push_punct(out, ',', false);
    push_word(out, "f");
    push_punct(out, ':', false);
    push_punct(out, '&', false);
    push_word(out, "mut");
    emit_std_path(out, "fmt", "Formatter");
    push_punct(out, '<', false);
    push_punct(out, '\'', true);
    push_word(out, "_");
    push_punct(out, '>', false);
    push_close(out, Delimiter::Parenthesis);
    emit_arrow(out);
    emit_std_path(out, "fmt", "Result");
    assert(toks(out@) =~= o + fmt_signature());
}

fn emit_fmt_block(out: &mut Vec<TokenTree>, name: &Ident, fields: &Vec<Field>)
    ensures
        toks(final(out)@) == toks(old(out)@) + fmt_block(name@, fields@),
{
    let ghost o = toks(out@);
    let ghost fs = fields@;
    push_word(out, "f");
    push_punct(out, '.', false);
    push_word(out, "debug_struct");
    push_open(out, Delimiter::Parenthesis);
    push_str_lit(out, name.text());
    push_close(out, Delimiter::Parenthesis);
    let ghost head = toks(out@);
    let mut k: usize = 0;
    while k < fields.len()
        invariant
            fs == fields@,
            k <= fields.len(),
            toks(out@) == head + concat(fmt_fields(fs).take(k as int)),
        decreases fields.len() - k,
    {
        proof {
            lemma_concat_push(fmt_fields(fs), k as int);
        }
        emit_field_fmt(out, &fields[k]);
        k = k + 1;
    }
    assert(fmt_fields(fs).take(fs.len() as int) =~= fmt_fields(fs));
    push_punct(out, '.', false);
    push_word(out, "finish");
    emit_empty_parens(out);
    assert(toks(out@) =~= o + fmt_block(name@, fs));
}

/// The code of `#[derive(CustomDebug)]`.
pub fn do_derive(st: &DeriveInput) -> (r: Expansion)
    ensures
        r@ == debug_spec(*st),
{
    let fields = match get_all_struct_fields(st) {
        Some(f) => f,
        None => {
            return Expansion::Panic;
        },
    };
    let expanded_generics = match get_struct_escape_hatch(st) {
        Some(hatch_lit) => {
            if !has_no_c_string(&hatch_lit) || !parses_as_where_predicate(&hatch_lit) {
                return Expansion::Panic;
            }
            inject_escape_hatch(st, &hatch_lit)
        },
        None => inject_trait_bound(st),
    };
    let ig = impl_generics(&expanded_generics);
    let tg = ty_generics(&expanded_generics);
    let wc = where_clause(&expanded_generics);
    let mut out: Vec<TokenTree> = Vec::new();
    push_word(&mut out, "impl");
    extend_tokens(&mut out, &ig);
    emit_std_path(&mut out, "fmt", "Debug");
    push_word(&mut out, "for");
    push_ident(&mut out, &st.ident);
    extend_tokens(&mut out, &tg);
    extend_tokens(&mut out, &wc);
    push_open(&mut out, Delimiter::Brace);
    emit_fmt_signature(&mut out);
    push_open(&mut out, Delimiter::Brace);
    emit_fmt_block(&mut out, &st.ident, fields);
    push_close(&mut out, Delimiter::Brace);
    push_close(&mut out, Delimiter::Brace);
    assert(toks(out@) =~= debug_impl(st.ident@, fields@, toks(ig@), toks(tg@), toks(wc@)));
    Expansion::Tokens(out)
}

} // verus!

verus! {

/// `#[derive(CustomDebug)]`.
pub fn derive(input: &DeriveInput) -> (r: Expansion)
    ensures
        r@ == debug_spec(*input),
{
    do_derive(input)
}

} // verus!

verus! {

proof fn lemma_field_fmt_balanced(f: Field)
    ensures
        crate::nesting::balanced(field_fmt(f)),
{
    broadcast use crate::nesting::group_balanced;

}

/// The impl is well nested when the generics it copies are.
pub proof fn lemma_debug_impl_balanced(
    name: IdentV,
    fs: Seq<Field>,
    ig: Seq<Tok>,
    tg: Seq<Tok>,
    wc: Seq<Tok>,
)
    requires
        crate::nesting::balanced(ig),
        crate::nesting::balanced(tg),
        crate::nesting::balanced(wc),
    ensures
        crate::nesting::balanced(debug_impl(name, fs, ig, tg, wc)),
{
    broadcast use crate::nesting::group_balanced;

    assert forall|i: int| 0 <= i < fs.len() implies crate::nesting::balanced(
        #[trigger] fmt_fields(fs)[i],
    ) by {
        lemma_field_fmt_balanced(fs[i]);
    }
    crate::nesting::lemma_concat_balanced(fmt_fields(fs));
    assert(crate::nesting::balanced(fmt_signature()));
    assert(crate::nesting::balanced(fmt_block(name, fs)));
}

/// The `where` predicates are well nested when the associated types are.
pub proof fn lemma_debug_predicates_balanced(fs: Seq<Field>)
    requires
        forall|i: int|
            0 <= i < assoc_types(fs).len() ==> crate::nesting::balanced(
                ty_tokens(#[trigger] assoc_types(fs)[i].1),
            ),
    ensures
        forall|i: int|
            0 <= i < debug_predicates(fs).len() ==> crate::nesting::balanced(
                #[trigger] debug_predicates(fs)[i],
            ),
{
    broadcast use crate::nesting::group_balanced;

    assert forall|i: int| 0 <= i < debug_predicates(fs).len() implies crate::nesting::balanced(
        #[trigger] debug_predicates(fs)[i],
    ) by {
        assert(crate::nesting::balanced(ty_tokens(assoc_types(fs)[i].1)));
        assert(crate::nesting::balanced(std_path("fmt"@, "Debug"@)));
    }
}

proof fn lemma_bounded_generics_balanced(g: GenericsV, fs: Seq<Field>)
    requires
        generics_balanced(g),
        forall|i: int|
            0 <= i < assoc_types(fs).len() ==> crate::nesting::balanced(
                ty_tokens(#[trigger] assoc_types(fs)[i].1),
            ),
    ensures
        generics_balanced(bounded_generics(g, fs)),
{
    broadcast use crate::nesting::group_balanced;

    let b = bounded_generics(g, fs);
    lemma_debug_predicates_balanced(fs);
    assert forall|i: int| 0 <= i < b.params.len() implies param_balanced(#[trigger] b.params[i]) by {
        assert(param_balanced(g.params[i]));
        assert(crate::nesting::balanced(std_path("fmt"@, "Debug"@)));
        if let GenericParamV::Type { bounds, .. } = g.params[i] {
            if debug_bounds(g.params, fs)[i] {
                let nb = bounds.push(std_path("fmt"@, "Debug"@));
                assert forall|j: int| 0 <= j < nb.len() implies crate::nesting::balanced(
                    #[trigger] nb[j],
                ) by {
                    if j < bounds.len() {
                        assert(nb[j] == bounds[j]);
                    }
                }
            }
        }
    }
    assert forall|i: int| 0 <= i < b.predicates.len() implies crate::nesting::balanced(
        #[trigger] b.predicates[i],
    ) by {
        if i < g.predicates.len() {
            assert(b.predicates[i] == g.predicates[i]);
        } else {
            assert(b.predicates[i] == debug_predicates(fs)[i - g.predicates.len()]);
        }
    }
}

/// What `#[derive(CustomDebug)]` emits is well nested when the token
/// sequences of the struct's generics and the associated types of its
/// fields are.
pub proof fn lemma_debug_output_balanced(st: DeriveInput)
    requires
        generics_balanced(st.generics@),
        named_fields(st) is Some ==> forall|i: int|
            0 <= i < assoc_types(named_fields(st).unwrap()).len() ==> crate::nesting::balanced(
                ty_tokens(#[trigger] assoc_types(named_fields(st).unwrap())[i].1),
            ),
    ensures
        debug_spec(st) matches ExpansionV::Tokens(t) ==> crate::nesting::balanced(t),
{
    broadcast use crate::nesting::group_balanced;

    if let Some(fs) = named_fields(st) {
        let g = st.generics@;
        let g2 = match escape_hatch(st) {
            Some(text) => {
                let p = hatch_predicate(text);
                assert(crate::nesting::is_atom(p[0]));
                let h = hatch_generics(g, p);
                assert forall|i: int| 0 <= i < h.predicates.len() implies crate::nesting::balanced(
                    #[trigger] h.predicates[i],
                ) by {
                    if i < g.predicates.len() {
                        assert(h.predicates[i] == g.predicates[i]);
                    }
                }
                assert(generics_balanced(h));
                h
            },
            None => {
                lemma_bounded_generics_balanced(g, fs);
                bounded_generics(g, fs)
            },
        };
        lemma_split_balanced(g2);
        lemma_debug_impl_balanced(
            st.ident@,
            fs,
            generics_tokens(g2, false),
            generics_tokens(g2, true),
            where_tokens(g2),
        );
    }
}

/// The field's type is a path whose last segment is `PhantomData<..., X>`
/// with `X` a path whose last segment is named `x`; the segments before the
/// last one play no part.
pub open spec fn phantom_of(t: Ty, x: Seq<char>) -> bool {
    &&& last_segment(t) matches Some(s)
    &&& ident_text(s.ident@) == "PhantomData"@
    &&& s.arguments matches PathArguments::AngleBracketed(args)
    &&& args@.len() > 0
    &&& args@.last() matches GenericArgument::Type(a)
    &&& last_segment(a) matches Some(seg)
    &&& ident_text(seg.ident@) == x
}

/// A type parameter used by some field as `...::PhantomData<T>` gets no
/// `Debug` bound: the impl keeps that parameter exactly as the struct
/// declares it, however the `PhantomData` path is written.
pub proof fn lemma_phantom_param_unbounded(g: GenericsV, fs: Seq<Field>, i: int, j: int)
    requires
        0 <= i < fs.len(),
        0 <= j < g.params.len(),
        g.params[j] matches GenericParamV::Type { ident, .. } && phantom_of(
            fs[i].ty,
            ident_text(ident),
        ),
    ensures
        !debug_bounds(g.params, fs)[j],
        bounded_generics(g, fs).params[j] == g.params[j],
{
    let x = ident_text(g.params[j]->Type_ident);
    assert(phantom_param(fs[i].ty) == Some(x));
    lemma_phantom_names_has(fs, i);
    assert(skips_param(fs, x));
}

proof fn lemma_phantom_names_has(fs: Seq<Field>, i: int)
    requires
        0 <= i < fs.len(),
        phantom_param(fs[i].ty) is Some,
    ensures
        phantom_names(fs).contains(phantom_param(fs[i].ty).unwrap()),
    decreases fs.len(),
{
    if i == fs.len() - 1 {
        let n = phantom_names(fs.drop_last()).len();
        assert(phantom_names(fs)[n as int] == phantom_param(fs[i].ty).unwrap());
    } else {
        assert(fs.drop_last()[i] == fs[i]);
        lemma_phantom_names_has(fs.drop_last(), i);
        let y = phantom_param(fs[i].ty).unwrap();
        let k = choose|k: int| 0 <= k < phantom_names(fs.drop_last()).len() && phantom_names(fs.drop_last())[k] == y;
        assert(phantom_names(fs)[k] == y);
    }
}

} // verus!
