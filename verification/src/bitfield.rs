//! `#[bitfield]`: replaces the fields of a struct by one byte array as wide
//! as the fields' bit widths add up to (in bytes), and the widths `B1` to
//! `B64` that fields are declared with.
use vstd::prelude::*;
use crate::tokens::{
    extend_tokens, group, path_sep, punct, push_close, push_open, push_path_sep, push_punct,
    push_token, push_word, text_of, toks, word, CompileError, Delimiter, ErrorV, Ident, IdentV,
    LitRepr, LitV, Span, Tok, TokenTree, compile_error_tokens, to_compile_error,
};
use crate::decimal::{decimal, i64_text};
use crate::syntax::{ty_tokens, Field, Fields};

verus! {

/// A struct item: the tokens before its fields (attributes, visibility,
/// `struct`, name, generic parameters), its `where` clause, its fields, and
/// the spans of its first and last token.
#[derive(Debug)]
pub struct ItemStruct {
    pub head: Vec<TokenTree>,
    pub where_clause: Vec<TokenTree>,
    pub fields: Fields,
    pub start: Span,
    pub end: Span,
}

/// The named fields, or an empty error spanning the struct.
pub open spec fn struct_fields_spec(st: ItemStruct) -> Result<Seq<Field>, ErrorV> {
    match st.fields {
        Fields::Named(v) => Ok(v@),
        _ => Err(ErrorV { start: st.start, end: st.end, message: seq![] }),
    }
}

/// The named fields of the struct; an error spanning the struct when its
/// fields are not named.
pub fn get_struct_fields(st: &ItemStruct) -> (r: Result<&Vec<Field>, CompileError>)
    ensures
        match r {
            Ok(v) => struct_fields_spec(*st) == Ok::<Seq<Field>, ErrorV>(v@),
            Err(e) => struct_fields_spec(*st) == Err::<Seq<Field>, ErrorV>(e@),
        },
{
    match &st.fields {
        Fields::Named(v) => Ok(v),
        _ => Err(CompileError { start: st.start, end: st.end, message: Vec::new() }),
    }
}

/// `<T as Specifier>::BITS` for a field of type `T`.
pub open spec fn bits_term(f: Field) -> Seq<Tok> {
    seq![punct('<')] + ty_tokens(f.ty) + seq![word("as"@), word("Specifier"@), punct('>')]
        + path_sep() + seq![word("BITS"@)]
}

/// The widths of the fields added up: the terms joined by `+`.
pub open spec fn bits_sum(fs: Seq<Field>) -> Seq<Tok>
    decreases fs.len(),
{
    if fs.len() == 0 {
        seq![]
    } else if fs.len() == 1 {
        bits_term(fs[0])
    } else {
        bits_sum(fs.drop_last()) + seq![punct('+')] + bits_term(fs.last())
    }
}

/// The literal `8`.
pub open spec fn eight() -> Tok {
    Tok::Literal { lit: LitV::Source("8"@), span: Span::CallSite }
}

/// `(sum) / 8`
pub open spec fn width_expr(fs: Seq<Field>) -> Seq<Tok> {
    group(Delimiter::Parenthesis, bits_sum(fs)) + seq![punct('/'), eight()]
}

fn emit_bits_term(out: &mut Vec<TokenTree>, f: &Field)
    ensures
        toks(final(out)@) == toks(old(out)@) + bits_term(*f),
{
    let ghost o = toks(out@);
    push_punct(out, '<', false);
    extend_tokens(out, f.ty.tokens());
    push_word(out, "as");
    push_word(out, "Specifier");
    push_punct(out, '>', false);
    push_path_sep(out);
    push_word(out, "BITS");
    assert(toks(out@) =~= o + bits_term(*f));
}

/// The number of bytes of the struct: `(<T1 as Specifier>::BITS + ...) / 8`.
pub fn generate_total_bitwidth_devide_by_8_expression(st: &ItemStruct) -> (r: Result<
    Vec<TokenTree>,
    CompileError,
>)
    ensures
        match r {
            Ok(t) => struct_fields_spec(*st) matches Ok(fs) && toks(t@) == width_expr(fs),
            Err(e) => struct_fields_spec(*st) == Err::<Seq<Field>, ErrorV>(e@),
        },
{
    let fields = match get_struct_fields(st) {
        Ok(f) => f,
        Err(e) => {
            return Err(e);
        },
    };
    let ghost fs = fields@;
    let mut plus_part: Vec<TokenTree> = Vec::new();
    let mut idx: usize = 0;
    while idx < fields.len()
        invariant
            fs == fields@,
            idx <= fields.len(),
            toks(plus_part@) == bits_sum(fs.take(idx as int)),
        decreases fields.len() - idx,
    {
        assert(fs.take(idx + 1).drop_last() =~= fs.take(idx as int));
        if idx > 0 {
            push_punct(&mut plus_part, '+', false);
        }
        emit_bits_term(&mut plus_part, &fields[idx]);
        idx = idx + 1;
    }
    assert(fs.take(fs.len() as int) =~= fs);
    let mut ret: Vec<TokenTree> = Vec::new();
    push_open(&mut ret, Delimiter::Parenthesis);
    extend_tokens(&mut ret, &plus_part);
    push_close(&mut ret, Delimiter::Parenthesis);
    push_punct(&mut ret, '/', false);
    push_token(
        &mut ret,
        TokenTree::Literal { repr: LitRepr::Source(text_of("8")), span: Span::CallSite },
    );
    assert(toks(ret@) =~= width_expr(fs));
    Ok(ret)
}

/// The struct with its fields replaced by `{ data: [u8; (sum) / 8], }`.
pub open spec fn real_struct(st: ItemStruct, fs: Seq<Field>) -> Seq<Tok> {
    toks(st.head@) + toks(st.where_clause@) + group(
        Delimiter::Brace,
        seq![word("data"@), punct(':')] + group(
            Delimiter::Bracket,
            seq![word("u8"@), punct(';')] + width_expr(fs),
        ) + seq![punct(',')],
    )
}

/// `#[bitfield]`: the struct with a byte array in place of its fields, or
/// an empty error spanning the struct when its fields are not named.
pub fn generate_real_struct(st: &ItemStruct) -> (r: Result<Vec<TokenTree>, CompileError>)
    ensures
        match r {
            Ok(t) => struct_fields_spec(*st) matches Ok(fs) && toks(t@) == real_struct(*st, fs),
            Err(e) => struct_fields_spec(*st) == Err::<Seq<Field>, ErrorV>(e@),
        },
{
    let length_expression = match generate_total_bitwidth_devide_by_8_expression(st) {
        Ok(t) => t,
        Err(e) => {
            return Err(e);
        },
    };
    let mut out: Vec<TokenTree> = Vec::new();
    extend_tokens(&mut out, &st.head);
    extend_tokens(&mut out, &st.where_clause);
    push_open(&mut out, Delimiter::Brace);
    push_word(&mut out, "data");
    push_punct(&mut out, ':', false);
    push_open(&mut out, Delimiter::Bracket);
    push_word(&mut out, "u8");
    push_punct(&mut out, ';', false);
    extend_tokens(&mut out, &length_expression);
    push_close(&mut out, Delimiter::Bracket);
    push_punct(&mut out, ',', false);
    push_close(&mut out, Delimiter::Brace);
    assert(toks(out@) =~= real_struct(*st, struct_fields_spec(*st)->Ok_0));
    Ok(out)
}

/// The name `B{i}`.
pub open spec fn width_name(i: int) -> Tok {
    Tok::Ident(IdentV { raw: false, name: seq!['B'] + decimal(i), span: Span::CallSite })
}

/// `pub enum B{i} {} impl Specifier for B{i} { const BITS: usize = {i}usize; }`
pub open spec fn width_enum(i: int) -> Seq<Tok> {
    seq![word("pub"@), word("enum"@), width_name(i)] + group(Delimiter::Brace, seq![]) + seq![
        word("impl"@),
        word("Specifier"@),
        word("for"@),
        width_name(i),
    ] + group(
        Delimiter::Brace,
        seq![
            word("const"@),
            word("BITS"@),
            punct(':'),
            word("usize"@),
            punct('='),
            Tok::Literal { lit: LitV::Usize(i as u64), span: Span::CallSite },
            punct(';'),
        ],
    )
}

/// The widths `B1` to `Bn`.
pub open spec fn width_enums(n: nat) -> Seq<Tok>
    decreases n,
{
    if n == 0 {
        seq![]
    } else {
        width_enums((n - 1) as nat) + width_enum(n as int)
    }
}

fn emit_width_enum(out: &mut Vec<TokenTree>, i: u64)
    requires
        i <= 64,
    ensures
        toks(final(out)@) == toks(old(out)@) + width_enum(i as int),
{
    let ghost o = toks(out@);
    let mut name: Vec<char> = Vec::new();
    name.push('B');
    let digits = i64_text(i as i64);
    crate::tokens::append_text(&mut name, &digits);
    assert(name@ =~= seq!['B'] + decimal(i as int));
    push_word(out, "pub");
    push_word(out, "enum");
    push_token(
        out,
        TokenTree::Ident(Ident { raw: false, name: crate::tokens::copy_text(&name), span: Span::CallSite }),
    );
    push_open(out, Delimiter::Brace);
    push_close(out, Delimiter::Brace);
    push_word(out, "impl");
    push_word(out, "Specifier");
    push_word(out, "for");
    push_token(out, TokenTree::Ident(Ident { raw: false, name, span: Span::CallSite }));
    push_open(out, Delimiter::Brace);
    push_word(out, "const");
    push_word(out, "BITS");
    push_punct(out, ':', false);
    push_word(out, "usize");
    push_punct(out, '=', false);
    push_token(out, TokenTree::Literal { repr: LitRepr::Usize(i), span: Span::CallSite });
    push_punct(out, ';', false);
    push_close(out, Delimiter::Brace);
    assert(toks(out@) =~= o + width_enum(i as int));
}

/// The widths `B1` to `B64`, each an empty enum with its number of bits.
pub fn define_field_width_enums() -> (r: Vec<TokenTree>)
    ensures
        toks(r@) == width_enums(64),
{
    let mut out_stream: Vec<TokenTree> = Vec::new();
    let mut i: u64 = 1;
    while i <= 64
        invariant
            1 <= i <= 65,
            toks(out_stream@) == width_enums((i - 1) as nat),
        decreases 65 - i,
    {
        emit_width_enum(&mut out_stream, i);
        i = i + 1;
    }
    out_stream
}

} // verus!

verus! {

/// `#[bitfield]`: the struct with a byte array in place of its fields, or
/// the error, as `compile_error!`, when its fields are not named.
pub fn bitfield(st: &ItemStruct) -> (r: Vec<TokenTree>)
    ensures
        toks(r@) == match struct_fields_spec(*st) {
            Ok(fs) => real_struct(*st, fs),
            Err(e) => compile_error_tokens(e),
        },
{
    match generate_real_struct(st) {
        Ok(t) => t,
        Err(e) => to_compile_error(&e),
    }
}

} // verus!

verus! {

proof fn lemma_bits_sum_balanced(fs: Seq<Field>)
    requires
        forall|i: int| 0 <= i < fs.len() ==> crate::nesting::balanced(ty_tokens(#[trigger] fs[i].ty)),
    ensures
        crate::nesting::balanced(bits_sum(fs)),
    decreases fs.len(),
{
    broadcast use crate::nesting::group_balanced;

    if fs.len() > 1 {
        lemma_bits_sum_balanced(fs.drop_last());
        assert(crate::nesting::balanced(ty_tokens(fs.last().ty)));
        assert(crate::nesting::balanced(bits_term(fs.last())));
    } else if fs.len() == 1 {
        assert(crate::nesting::balanced(ty_tokens(fs[0].ty)));
        assert(crate::nesting::balanced(bits_term(fs[0])));
    }
}

/// The struct with its byte array is well nested when the tokens it keeps
/// and the field types are.
pub proof fn lemma_real_struct_balanced(st: ItemStruct, fs: Seq<Field>)
    requires
        crate::nesting::balanced(toks(st.head@)),
        crate::nesting::balanced(toks(st.where_clause@)),
        forall|i: int| 0 <= i < fs.len() ==> crate::nesting::balanced(ty_tokens(#[trigger] fs[i].ty)),
    ensures
        crate::nesting::balanced(real_struct(st, fs)),
{
    lemma_bits_sum_balanced(fs);
    let g = group(Delimiter::Parenthesis, bits_sum(fs));
    crate::nesting::lemma_balanced_group(Delimiter::Parenthesis, bits_sum(fs));
    crate::nesting::lemma_balanced_push(g, punct('/'));
    crate::nesting::lemma_balanced_push(g.push(punct('/')), eight());
    assert(g.push(punct('/')).push(eight()) =~= width_expr(fs));
    let e: Seq<Tok> = seq![];
    crate::nesting::lemma_balanced_push(e, word("u8"@));
    crate::nesting::lemma_balanced_push(e.push(word("u8"@)), punct(';'));
    assert(e.push(word("u8"@)).push(punct(';')) =~= seq![word("u8"@), punct(';')]);
    crate::nesting::lemma_balanced_add(seq![word("u8"@), punct(';')], width_expr(fs));
    let inner = seq![word("u8"@), punct(';')] + width_expr(fs);
    crate::nesting::lemma_balanced_group(Delimiter::Bracket, inner);
    let arr = group(Delimiter::Bracket, inner);
    crate::nesting::lemma_balanced_push(e, word("data"@));
    crate::nesting::lemma_balanced_push(e.push(word("data"@)), punct(':'));
    assert(e.push(word("data"@)).push(punct(':')) =~= seq![word("data"@), punct(':')]);
    crate::nesting::lemma_balanced_add(seq![word("data"@), punct(':')], arr);
    let body0 = seq![word("data"@), punct(':')] + arr;
    crate::nesting::lemma_balanced_push(body0, punct(','));
    assert(body0.push(punct(',')) =~= body0 + seq![punct(',')]);
    let body = body0 + seq![punct(',')];
    crate::nesting::lemma_balanced_group(Delimiter::Brace, body);
    crate::nesting::lemma_balanced_add(toks(st.head@), toks(st.where_clause@));
    crate::nesting::lemma_balanced_add(toks(st.head@) + toks(st.where_clause@), group(Delimiter::Brace, body));
    assert(crate::nesting::balanced(real_struct(st, fs)));
}

/// The widths `B1` to `Bn` are well nested.
pub proof fn lemma_width_enums_balanced(n: nat)
    ensures
        crate::nesting::balanced(width_enums(n)),
    decreases n,
{
    broadcast use crate::nesting::group_balanced;

    if n > 0 {
        lemma_width_enums_balanced((n - 1) as nat);
        assert(crate::nesting::balanced(width_enum(n as int)));
    }
}

/// The `<T as Specifier>::BITS` terms of the fields, one per field in field
/// order.
pub open spec fn field_width_terms(fs: Seq<Field>) -> Seq<Seq<Tok>> {
    Seq::new(
        fs.len(),
        |i: int|
            seq![punct('<')] + ty_tokens(fs[i].ty) + seq![word("as"@), word("Specifier"@), punct('>')]
                + path_sep() + seq![word("BITS"@)],
    )
}

/// The width of the byte array counts every field once, in field order: the
/// parenthesized sum holds exactly one `<T as Specifier>::BITS` term per
/// field, the terms joined by `+`, and the sum is divided by `8`.
pub proof fn lemma_width_one_term_per_field(fs: Seq<Field>)
    ensures
        width_expr(fs) == group(
            Delimiter::Parenthesis,
            crate::generics::join_plus(field_width_terms(fs)),
        ) + seq![punct('/'), Tok::Literal { lit: LitV::Source("8"@), span: Span::CallSite }],
{
    lemma_bits_sum_terms(fs);
}

proof fn lemma_bits_sum_terms(fs: Seq<Field>)
    ensures
        bits_sum(fs) == crate::generics::join_plus(field_width_terms(fs)),
    decreases fs.len(),
{
    if fs.len() > 1 {
        lemma_bits_sum_terms(fs.drop_last());
        assert(field_width_terms(fs).drop_last() =~= field_width_terms(fs.drop_last()));
        assert(field_width_terms(fs).last() == bits_term(fs.last()));
    } else if fs.len() == 1 {
        assert(field_width_terms(fs)[0] == bits_term(fs[0]));
    }
}

} // verus!
