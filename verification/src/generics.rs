//! Generics split for an impl header: the parameters after `impl` (with
//! their bounds, without defaults, lifetimes first), the arguments after the
//! type (names only), and the `where` clause, printed only when it has
//! predicates.
use vstd::prelude::*;
use crate::tokens::{extend_tokens, punct, push_ident, push_punct, push_word, toks, word, Tok, TokenTree};
use crate::syntax::{token_lists, GenericParam, GenericParamV, Generics, GenericsV};

verus! {

/// The parts one after the other, with a `+` between two parts.
pub open spec fn join_plus(parts: Seq<Seq<Tok>>) -> Seq<Tok>
    decreases parts.len(),
{
    if parts.len() == 0 {
        seq![]
    } else if parts.len() == 1 {
        parts[0]
    } else {
        join_plus(parts.drop_last()) + seq![punct('+')] + parts.last()
    }
}

/// A parameter as it stands after `impl`: a type parameter with its bounds
/// behind `:` (when it has any) and without its default.
pub open spec fn param_impl_tokens(p: GenericParamV) -> Seq<Tok> {
    match p {
        GenericParamV::Type { attrs, ident, bounds, bounds_trailing } => attrs + seq![
            Tok::Ident(ident),
        ] + if bounds.len() > 0 {
            seq![punct(':')] + join_plus(bounds) + if bounds_trailing {
                seq![punct('+')]
            } else {
                seq![]
            }
        } else {
            seq![]
        },
        GenericParamV::Lifetime { def, .. } => def,
        GenericParamV::Const { decl, .. } => decl,
    }
}

/// A parameter as it stands after the type: its name.
pub open spec fn param_ty_tokens(p: GenericParamV) -> Seq<Tok> {
    match p {
        GenericParamV::Type { ident, .. } => seq![Tok::Ident(ident)],
        GenericParamV::Lifetime { lifetime, .. } => lifetime,
        GenericParamV::Const { ident, .. } => seq![Tok::Ident(ident)],
    }
}

pub open spec fn param_tokens(p: GenericParamV, ty: bool) -> Seq<Tok> {
    if ty {
        param_ty_tokens(p)
    } else {
        param_impl_tokens(p)
    }
}

/// The parameter at `k` is followed by a `,` in the item.
pub open spec fn has_comma(g: GenericsV, k: int) -> bool {
    k < g.params.len() - 1 || g.params_trailing
}

/// The parameters from `k` on that are lifetimes (or that are not), each
/// with the `,` that follows it in the item.
pub open spec fn params_from(g: GenericsV, ty: bool, lifetimes: bool, k: int) -> Seq<Tok>
    decreases g.params.len() - k,
{
    if k < 0 || k >= g.params.len() {
        seq![]
    } else {
        (if (g.params[k] is Lifetime) == lifetimes {
            param_tokens(g.params[k], ty) + if has_comma(g, k) {
                seq![punct(',')]
            } else {
                seq![]
            }
        } else {
            seq![]
        }) + params_from(g, ty, lifetimes, k + 1)
    }
}

/// A lifetime came last without a `,`, and other parameters follow it once
/// lifetimes are put first: a `,` goes between.
pub open spec fn needs_comma(g: GenericsV) -> bool {
    &&& g.params.len() > 0
    &&& g.params.last() is Lifetime
    &&& !g.params_trailing
    &&& exists|i: int| 0 <= i < g.params.len() && !(#[trigger] g.params[i] is Lifetime)
}

/// `<...>` after `impl` (`ty` false) or after the type (`ty` true); nothing
/// without parameters.
pub open spec fn generics_tokens(g: GenericsV, ty: bool) -> Seq<Tok> {
    if g.params.len() == 0 {
        seq![]
    } else {
        seq![punct('<')] + params_from(g, ty, true, 0) + (if needs_comma(g) {
            seq![punct(',')]
        } else {
            seq![]
        }) + params_from(g, ty, false, 0) + seq![punct('>')]
    }
}

/// `where` and the predicates; nothing without predicates.
pub open spec fn where_tokens(g: GenericsV) -> Seq<Tok> {
    if g.predicates.len() == 0 {
        seq![]
    } else {
        seq![word("where"@)] + crate::tokens::join_commas(g.predicates) + if g.where_trailing {
            seq![punct(',')]
        } else {
            seq![]
        }
    }
}

/// A copy of the tokens.
pub fn copy_tokens(v: &Vec<TokenTree>) -> (r: Vec<TokenTree>)
    ensures
        toks(r@) == toks(v@),
{
    let mut r: Vec<TokenTree> = Vec::new();
    extend_tokens(&mut r, v);
    assert(toks(r@) =~= toks(v@));
    r
}

/// A copy of a list of token sequences.
pub fn copy_token_lists(v: &Vec<Vec<TokenTree>>) -> (r: Vec<Vec<TokenTree>>)
    ensures
        token_lists(r@) == token_lists(v@),
{
    let mut r: Vec<Vec<TokenTree>> = Vec::new();
    let mut k: usize = 0;
    while k < v.len()
        invariant
            k <= v.len(),
            r@.len() == k,
            forall|j: int| 0 <= j < k ==> toks(#[trigger] r@[j]@) == toks(v@[j]@),
        decreases v.len() - k,
    {
        r.push(copy_tokens(&v[k]));
        k = k + 1;
    }
    assert(token_lists(r@) =~= token_lists(v@));
    r
}

impl GenericParam {
    /// A copy of this parameter.
    pub fn copy(&self) -> (r: GenericParam)
        ensures
            r@ == self@,
    {
        match self {
            GenericParam::Type { attrs, ident, bounds, bounds_trailing } => GenericParam::Type {
                attrs: copy_tokens(attrs),
                ident: ident.copy(),
                bounds: copy_token_lists(bounds),
                bounds_trailing: *bounds_trailing,
            },
            GenericParam::Lifetime { def, lifetime } => GenericParam::Lifetime {
                def: copy_tokens(def),
                lifetime: copy_tokens(lifetime),
            },
            GenericParam::Const { decl, ident } => GenericParam::Const {
                decl: copy_tokens(decl),
                ident: ident.copy(),
            },
        }
    }
}

fn emit_join_plus(out: &mut Vec<TokenTree>, parts: &Vec<Vec<TokenTree>>)
    ensures
        toks(final(out)@) == toks(old(out)@) + join_plus(token_lists(parts@)),
{
    let ghost o = toks(out@);
    let ghost ps = token_lists(parts@);
    let mut k: usize = 0;
    while k < parts.len()
        invariant
            ps == token_lists(parts@),
            k <= parts.len(),
            toks(out@) == o + join_plus(ps.take(k as int)),
        decreases parts.len() - k,
    {
        let ghost before = toks(out@);
        if k > 0 {
            push_punct(out, '+', false);
        }
        extend_tokens(out, &parts[k]);
        assert(ps.take(k + 1).drop_last() =~= ps.take(k as int));
        if k == 0 {
            assert(join_plus(ps.take(1)) == ps[0]);
        }
        assert(toks(out@) =~= o + join_plus(ps.take(k + 1)));
        k = k + 1;
    }
    assert(ps.take(parts.len() as int) =~= ps);
}

fn emit_param(out: &mut Vec<TokenTree>, p: &GenericParam, ty: bool)
    ensures
        toks(final(out)@) == toks(old(out)@) + param_tokens(p@, ty),
{
    let ghost o = toks(out@);
    match p {
        GenericParam::Type { attrs, ident, bounds, bounds_trailing } => {
            if !ty {
                extend_tokens(out, attrs);
            }
            push_ident(out, ident);
            if !ty && bounds.len() > 0 {
                push_punct(out, ':', false);
                emit_join_plus(out, bounds);
                if *bounds_trailing {
                    push_punct(out, '+', false);
                }
            }
        },
        GenericParam::Lifetime { def, lifetime } => {
            if ty {
                extend_tokens(out, lifetime);
            } else {
                extend_tokens(out, def);
            }
        },
        GenericParam::Const { decl, ident } => {
            if ty {
                push_ident(out, ident);
            } else {
                extend_tokens(out, decl);
            }
        },
    }
    assert(toks(out@) =~= o + param_tokens(p@, ty));
}

fn emit_params(out: &mut Vec<TokenTree>, g: &Generics, ty: bool, lifetimes: bool)
    ensures
        toks(final(out)@) == toks(old(out)@) + params_from(g@, ty, lifetimes, 0),
{
    let ghost o = toks(out@);
    let ghost gv = g@;
    let mut k: usize = 0;
    while k < g.params.len()
        invariant
            gv == g@,
            k <= g.params.len(),
            toks(out@) + params_from(gv, ty, lifetimes, k as int) == o + params_from(
                gv,
                ty,
                lifetimes,
                0,
            ),
        decreases g.params.len() - k,
    {
        let ghost before = toks(out@);
        let p = &g.params[k];
        assert(gv.params[k as int] == p@);
        let is_lifetime = match p {
            GenericParam::Lifetime { .. } => true,
            _ => false,
        };
        if is_lifetime == lifetimes {
            emit_param(out, p, ty);
            if k + 1 < g.params.len() || g.params_trailing {
                push_punct(out, ',', false);
            }
        }
        assert(toks(out@) + params_from(gv, ty, lifetimes, k + 1) =~= before + params_from(
            gv,
            ty,
            lifetimes,
            k as int,
        ));
        k = k + 1;
    }
    assert(toks(out@) =~= o + params_from(gv, ty, lifetimes, 0));
}

fn lifetime_needs_comma(g: &Generics) -> (r: bool)
    ensures
        r == needs_comma(g@),
{
    let ghost gv = g@;
    let n = g.params.len();
    if n == 0 || g.params_trailing {
        return false;
    }
    match &g.params[n - 1] {
        GenericParam::Lifetime { .. } => {},
        _ => {
            assert(!(gv.params.last() is Lifetime));
            return false;
        },
    }
    assert(gv.params.last() is Lifetime);
    let mut k: usize = 0;
    while k < n
        invariant
            gv == g@,
            n == g.params.len(),
            k <= n,
            n > 0,
            gv.params.len() == n,
            gv.params.last() is Lifetime,
            !gv.params_trailing,
            forall|j: int| 0 <= j < k ==> gv.params[j] is Lifetime,
        decreases n - k,
    {
        match &g.params[k] {
            GenericParam::Lifetime { .. } => {},
            _ => {
                assert(!(gv.params[k as int] is Lifetime));
                return true;
            },
        }
        assert(gv.params[k as int] is Lifetime);
        k = k + 1;
    }
    false
}

/// The parameters after `impl`: with their bounds and without defaults,
/// lifetimes first.
pub fn impl_generics(g: &Generics) -> (r: Vec<TokenTree>)
    ensures
        toks(r@) == generics_tokens(g@, false),
{
    split_part(g, false)
}

/// The arguments after the type: the parameters' names, lifetimes first.
pub fn ty_generics(g: &Generics) -> (r: Vec<TokenTree>)
    ensures
        toks(r@) == generics_tokens(g@, true),
{
    split_part(g, true)
}

fn split_part(g: &Generics, ty: bool) -> (r: Vec<TokenTree>)
    ensures
        toks(r@) == generics_tokens(g@, ty),
{
    let mut out: Vec<TokenTree> = Vec::new();
    if g.params.len() == 0 {
        assert(toks(out@) =~= generics_tokens(g@, ty));
        return out;
    }
    push_punct(&mut out, '<', false);
    emit_params(&mut out, g, ty, true);
    if lifetime_needs_comma(g) {
        push_punct(&mut out, ',', false);
    }
    emit_params(&mut out, g, ty, false);
    push_punct(&mut out, '>', false);
    assert(toks(out@) =~= generics_tokens(g@, ty));
    out
}

/// The `where` clause: `where` and the predicates, or nothing.
pub fn where_clause(g: &Generics) -> (r: Vec<TokenTree>)
    ensures
        toks(r@) == where_tokens(g@),
{
    let ghost gv = g@;
    let ghost ps = gv.predicates;
    let mut out: Vec<TokenTree> = Vec::new();
    if g.predicates.len() == 0 {
        assert(toks(out@) =~= where_tokens(gv));
        return out;
    }
    push_word(&mut out, "where");
    let ghost head = toks(out@);
    let mut k: usize = 0;
    while k < g.predicates.len()
        invariant
            gv == g@,
            ps == gv.predicates,
            k <= g.predicates.len(),
            toks(out@) == head + crate::tokens::join_commas(ps.take(k as int)),
        decreases g.predicates.len() - k,
    {
        proof {
            crate::tokens::lemma_join_commas_push(ps, k as int);
        }
        if k > 0 {
            push_punct(&mut out, ',', false);
        }
        extend_tokens(&mut out, &g.predicates[k]);
        k = k + 1;
    }
    assert(ps.take(ps.len() as int) =~= ps);
    if g.where_trailing {
        push_punct(&mut out, ',', false);
    }
    assert(toks(out@) =~= where_tokens(gv));
    out
}

} // verus!

verus! {

/// Every token sequence that the generics hold is well nested.
pub open spec fn generics_balanced(g: GenericsV) -> bool {
    &&& forall|i: int| 0 <= i < g.params.len() ==> param_balanced(#[trigger] g.params[i])
    &&& forall|i: int|
        0 <= i < g.predicates.len() ==> crate::nesting::balanced(#[trigger] g.predicates[i])
}

/// Every token sequence that the parameter holds is well nested.
pub open spec fn param_balanced(p: GenericParamV) -> bool {
    match p {
        GenericParamV::Type { attrs, bounds, .. } => crate::nesting::balanced(attrs) && forall|
            j: int,
        | 0 <= j < bounds.len() ==> crate::nesting::balanced(#[trigger] bounds[j]),
        GenericParamV::Lifetime { def, lifetime } => crate::nesting::balanced(def)
            && crate::nesting::balanced(lifetime),
        GenericParamV::Const { decl, .. } => crate::nesting::balanced(decl),
    }
}

proof fn lemma_join_plus_balanced(parts: Seq<Seq<Tok>>)
    requires
        forall|i: int| 0 <= i < parts.len() ==> crate::nesting::balanced(#[trigger] parts[i]),
    ensures
        crate::nesting::balanced(join_plus(parts)),
    decreases parts.len(),
{
    broadcast use crate::nesting::group_balanced;

    if parts.len() > 1 {
        lemma_join_plus_balanced(parts.drop_last());
        assert(crate::nesting::balanced(parts.last()));
    } else if parts.len() == 1 {
        assert(crate::nesting::balanced(parts[0]));
    }
}

proof fn lemma_param_balanced(p: GenericParamV, ty: bool)
    requires
        param_balanced(p),
    ensures
        crate::nesting::balanced(param_tokens(p, ty)),
{
    broadcast use crate::nesting::group_balanced;

    if let GenericParamV::Type { bounds, .. } = p {
        lemma_join_plus_balanced(bounds);
    }
}

proof fn lemma_params_from_balanced(g: GenericsV, ty: bool, lifetimes: bool, k: int)
    requires
        generics_balanced(g),
    ensures
        crate::nesting::balanced(params_from(g, ty, lifetimes, k)),
    decreases g.params.len() - k,
{
    broadcast use crate::nesting::group_balanced;

    if 0 <= k < g.params.len() {
        lemma_params_from_balanced(g, ty, lifetimes, k + 1);
        assert(param_balanced(g.params[k]));
        lemma_param_balanced(g.params[k], ty);
    }
}

/// The generics split for an impl are well nested when every token
/// sequence they hold is.
pub proof fn lemma_split_balanced(g: GenericsV)
    requires
        generics_balanced(g),
    ensures
        crate::nesting::balanced(generics_tokens(g, false)),
        crate::nesting::balanced(generics_tokens(g, true)),
        crate::nesting::balanced(where_tokens(g)),
{
    broadcast use crate::nesting::group_balanced;

    lemma_params_from_balanced(g, false, true, 0);
    lemma_params_from_balanced(g, false, false, 0);
    lemma_params_from_balanced(g, true, true, 0);
    lemma_params_from_balanced(g, true, false, 0);
    crate::nesting::lemma_join_commas_balanced(g.predicates);
}

} // verus!
