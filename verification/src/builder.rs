//! `#[derive(Builder)]`: generates `FooBuilder` with one optional slot per
//! field, a setter per field (or a one-at-a-time setter for fields marked
//! `#[builder(each = "name")]`), and `build()`, which fails on the first
//! required field that was not set.
//!
//! The attribute `#[builder(each = "name")]` follows this library's own
//! convention: the field's first `builder` attribute decides; it must be
//! exactly `builder(each = "...")`, else the derive reports
//! "expected `builder(each = \"...\")`" spanning the attribute's
//! arguments; the setter is named by the string.
use vstd::prelude::*;
use crate::tokens::{append_str, append_text, arrow, concat, emit_arrow, emit_empty_parens, emit_std_path, empty_parens, std_path, extend_tokens, group, ident_from_text, ident_text, join_commas, joint, open, path_sep, punct, push_close, push_ident, push_open, push_path_sep, push_punct, push_str_lit, push_word, str_lit, text_of, toks, word, lemma_concat_push, lemma_join_commas_push, CompileError, Delimiter, ErrorV, Expansion, ExpansionV, Ident, IdentV, Tok, TokenTree, render, rendered};
use crate::syntax::{
    last_segment, path_is_ident_spec, ty_tokens, Attribute, Data, DeriveInput, Field, Fields,
    GenericArgument, Lit, Meta, NestedMeta, PathArguments, Ty,
};

verus! {

// ---------------------------------------------------------------------------
// Reading fields
// ---------------------------------------------------------------------------

/// The named fields of a struct input.
pub open spec fn named_fields(ast: DeriveInput) -> Option<Seq<Field>> {
    match ast.data {
        Data::Struct(Fields::Named(v)) => Some(v@),
        _ => None,
    }
}

/// The named fields of the input, when it is a struct with named fields.
pub fn derive_get_struct_fields(ast: &DeriveInput) -> (r: Option<&Vec<Field>>)
    ensures
        r matches Some(v) ==> named_fields(*ast) == Some(v@),
        r is None ==> named_fields(*ast) is None,
{
    match &ast.data {
        Data::Struct(Fields::Named(v)) => Some(v),
        _ => None,
    }
}

/// The field's type is a path whose last segment is `Option`.
pub open spec fn is_optional(f: Field) -> bool {
    last_segment(f.ty) matches Some(s) && ident_text(s.ident@) == "Option"@
}

/// Whether the field's type is a path whose last segment is `Option`
/// (so that `std::option::Option<T>` counts too).
pub fn is_field_optional(field: &Field) -> (r: bool)
    ensures
        r == is_optional(*field),
{
    match field.ty.last_segment() {
        Some(s) => s.ident.is("Option"),
        None => false,
    }
}

/// What looking for the type argument of a container type gives.
pub enum Inner {
    /// The first angle-bracketed argument, a type.
    Found(Ty),
    /// No such argument.
    Absent,
    /// The container is written with empty angle brackets; the lookup
    /// unwraps a missing first argument.
    Panics,
}

/// The type argument of the field's type when its last segment is
/// `container`.
pub open spec fn inner_type(f: Field, container: Seq<char>) -> Inner {
    match last_segment(f.ty) {
        Some(s) => if ident_text(s.ident@) == container {
            match s.arguments {
                PathArguments::AngleBracketed(args) => if args@.len() == 0 {
                    Inner::Panics
                } else {
                    match args@[0] {
                        GenericArgument::Type(t) => Inner::Found(t),
                        GenericArgument::Other => Inner::Absent,
                    }
                },
                _ => Inner::Absent,
            }
        } else {
            Inner::Absent
        },
        None => Inner::Absent,
    }
}

/// The type found by `inner_type` (arbitrary when there is none).
pub open spec fn found(i: Inner) -> Ty {
    match i {
        Inner::Found(t) => t,
        _ => arbitrary(),
    }
}

/// `T` for a field of type `...::container<T, ...>`.
pub fn extract_inner_type<'a>(field: &'a Field, container_ident: &str) -> (r: Option<&'a Ty>)
    requires
        !(inner_type(*field, container_ident@) is Panics),
    ensures
        match inner_type(*field, container_ident@) {
            Inner::Found(t) => r matches Some(x) && *x == t,
            _ => r is None,
        },
{
    match field.ty.last_segment() {
        Some(s) => {
            if s.ident.is(container_ident) {
                match &s.arguments {
                    PathArguments::AngleBracketed(args) => {
                        match &args[0] {
                            GenericArgument::Type(t) => Some(t),
                            GenericArgument::Other => None,
                        }
                    },
                    _ => None,
                }
            } else {
                None
            }
        },
        None => None,
    }
}

/// Whether looking for the type argument of `container` unwraps a missing
/// argument.
pub fn extract_panics(field: &Field, container_ident: &str) -> (r: bool)
    ensures
        r == (inner_type(*field, container_ident@) is Panics),
{
    match field.ty.last_segment() {
        Some(s) => {
            if s.ident.is(container_ident) {
                match &s.arguments {
                    PathArguments::AngleBracketed(args) => args.len() == 0,
                    _ => false,
                }
            } else {
                false
            }
        },
        None => false,
    }
}

/// The error for a `builder` attribute of the wrong shape.
pub open spec fn each_message() -> Seq<char> {
    "expected `builder(each = \"...\")`"@
}

/// What one attribute says about `each`: nothing unless it is a list
/// `builder(...)`; then the name of `each = "name"` when that is all the
/// list holds, else an error spanning the list.
pub open spec fn builder_attr(a: Attribute) -> Option<Result<Seq<char>, ErrorV>> {
    match a.meta {
        Some(Meta::List { path, nested, start, end }) => if path_is_ident_spec(path, "builder"@) {
            let bad = Err(ErrorV { start, end, message: each_message() });
            if nested@.len() == 1 {
                match nested@[0] {
                    NestedMeta::Meta(Meta::NameValue { path: p, lit: Lit::Str { value, .. } }) => {
                        if path_is_ident_spec(p, "each"@) {
                            Some(Ok(value@))
                        } else {
                            Some(bad)
                        }
                    },
                    _ => Some(bad),
                }
            } else {
                Some(bad)
            }
        } else {
            None
        },
        _ => None,
    }
}

/// What the first `builder` attribute from position `k` on says.
pub open spec fn each_attr_from(attrs: Seq<Attribute>, k: int) -> Option<Result<Seq<char>, ErrorV>>
    decreases attrs.len() - k,
{
    if k < 0 || k >= attrs.len() {
        None
    } else {
        match builder_attr(attrs[k]) {
            Some(r) => Some(r),
            None => each_attr_from(attrs, k + 1),
        }
    }
}

/// What the field's first `builder` attribute says.
pub open spec fn each_attr(f: Field) -> Option<Result<Seq<char>, ErrorV>> {
    each_attr_from(f.attrs@, 0)
}

/// The mathematical value of an `each` lookup.
pub open spec fn each_view(r: Option<Result<Vec<char>, CompileError>>) -> Option<
    Result<Seq<char>, ErrorV>,
> {
    match r {
        Some(Ok(s)) => Some(Ok(s@)),
        Some(Err(e)) => Some(Err(e@)),
        None => None,
    }
}

fn builder_attr_of(a: &Attribute) -> (r: Option<Result<Vec<char>, CompileError>>)
    ensures
        each_view(r) == builder_attr(*a),
{
    match &a.meta {
        Some(Meta::List { path, nested, start, end }) => {
            if !path.is_ident("builder") {
                return None;
            }
            if nested.len() == 1 {
                if let NestedMeta::Meta(Meta::NameValue { path: p, lit: Lit::Str { value, .. } }) =
                    &nested[0] {
                    if p.is_ident("each") {
                        return Some(Ok(crate::tokens::copy_text(value)));
                    }
                }
            }
            Some(
                Err(
                    CompileError {
                        start: *start,
                        end: *end,
                        message: text_of("expected `builder(each = \"...\")`"),
                    },
                ),
            )
        },
        _ => None,
    }
}

/// The setter name of `#[builder(each = "name")]`: `None` without such an
/// attribute, an error when a `builder` attribute has another shape.
pub fn get_each_attr_name(field: &Field) -> (r: Option<Result<Vec<char>, CompileError>>)
    ensures
        each_view(r) == each_attr(*field),
{
    let mut k: usize = 0;
    while k < field.attrs.len()
        invariant
            k <= field.attrs.len(),
            each_attr(*field) == each_attr_from(field.attrs@, k as int),
        decreases field.attrs.len() - k,
    {
        let r = builder_attr_of(&field.attrs[k]);
        if r.is_some() {
            return r;
        }
        k = k + 1;
    }
    None
}

} // verus!

verus! {

// ---------------------------------------------------------------------------
// The generated code, piece by piece
// ---------------------------------------------------------------------------

/// The field's name as a token.
pub open spec fn name_tok(f: Field) -> Tok {
    Tok::Ident(f.ident@)
}

/// The builder's slot for a field: the field's own type for `each` fields
/// and `Option` fields, else `std::option::Option<T>`.
pub open spec fn struct_item(f: Field) -> Seq<Tok> {
    if each_attr(f) is Some || inner_type(f, "Option"@) is Found {
        seq![name_tok(f), punct(':')] + ty_tokens(f.ty)
    } else {
        seq![name_tok(f), punct(':')] + std_path("option"@, "Option"@) + seq![punct('<')]
            + ty_tokens(f.ty) + seq![punct('>')]
    }
}

/// The initial value of a slot: `<T>::new()` for `each` fields, else
/// `std::option::Option::None`.
pub open spec fn factory_item(f: Field) -> Seq<Tok> {
    if each_attr(f) is Some {
        seq![name_tok(f), punct(':'), punct('<')] + ty_tokens(f.ty) + seq![punct('>')]
            + path_sep() + seq![word("new"@)] + empty_parens()
    } else {
        seq![name_tok(f), punct(':')] + std_path("option"@, "Option"@) + path_sep() + seq![
            word("None"@),
        ]
    }
}

/// The name of a field's setter: the `each` name, spanned at the field, or
/// the field's own name.
pub open spec fn setter_ident(f: Field) -> IdentV {
    match each_attr(f) {
        Some(Ok(s)) => ident_from_text(s, f.ident.span),
        _ => f.ident@,
    }
}

/// The type a setter takes: `T` of an `Option<T>` field, `T` of a `Vec<T>`
/// field with `each`, else the field's type.
pub open spec fn param_ty(f: Field) -> Ty {
    if is_optional(f) {
        found(inner_type(f, "Option"@))
    } else if each_attr(f) is Some {
        found(inner_type(f, "Vec"@))
    } else {
        f.ty
    }
}

/// Building the setter unwraps a missing type argument.
pub open spec fn method_panics(f: Field) -> bool {
    if is_optional(f) {
        !(inner_type(f, "Option"@) is Found)
    } else if each_attr(f) is Some {
        !(inner_type(f, "Vec"@) is Found)
    } else {
        false
    }
}

/// `(&mut self, p: T) -> &mut Self` of a setter.
pub open spec fn setter_signature(p: Tok, t: Seq<Tok>) -> Seq<Tok> {
    group(
        Delimiter::Parenthesis,
        seq![punct('&'), word("mut"@), word("self"@), punct(','), p, punct(':')] + t,
    ) + arrow() + seq![punct('&'), word("mut"@), word("Self"@)]
}

/// `{ self.name.push(setter); self }`
pub open spec fn push_body(name: Tok, setter: Tok) -> Seq<Tok> {
    group(
        Delimiter::Brace,
        seq![word("self"@), punct('.'), name, punct('.'), word("push"@)] + group(
            Delimiter::Parenthesis,
            seq![setter],
        ) + seq![punct(';'), word("self"@)],
    )
}

/// `{ self.name = std::option::Option::Some(name); self }`
pub open spec fn set_body(name: Tok) -> Seq<Tok> {
    group(
        Delimiter::Brace,
        seq![word("self"@), punct('.'), name, punct('=')] + std_path("option"@, "Option"@)
            + path_sep() + seq![word("Some"@)] + group(Delimiter::Parenthesis, seq![name]) + seq![
            punct(';'),
            word("self"@),
        ],
    )
}

/// A setter: `each` fields push one item, other fields store `Some(value)`.
pub open spec fn method_item(f: Field) -> Seq<Tok> {
    let name = name_tok(f);
    let t = ty_tokens(param_ty(f));
    if each_attr(f) is Some {
        let setter = Tok::Ident(setter_ident(f));
        seq![word("fn"@), setter] + setter_signature(setter, t) + push_body(name, setter)
    } else {
        seq![word("fn"@), name] + setter_signature(name, t) + set_body(name)
    }
}

/// The message for a required field that was not set.
pub open spec fn missing_message(f: Field) -> Seq<char> {
    "Field "@ + ident_text(f.ident@) + " is missing"@
}

/// The check in `build()` that a required field was set; nothing for
/// `Option` fields and `each` fields.
pub open spec fn missing_check(f: Field) -> Seq<Tok> {
    if is_optional(f) || each_attr(f) is Some {
        seq![]
    } else {
        seq![word("if"@), word("let"@)] + std_path("option"@, "Option"@) + path_sep() + seq![
            word("None"@),
            punct('='),
            word("self"@),
            punct('.'),
            name_tok(f),
        ] + group(
            Delimiter::Brace,
            seq![word("return"@)] + std_path("result"@, "Result"@) + path_sep() + seq![
                word("Err"@),
            ] + group(
                Delimiter::Parenthesis,
                seq![str_lit(missing_message(f)), punct('.'), word("into"@)] + empty_parens(),
            ),
        )
    }
}

/// A field of the built value: the slot cloned, and unwrapped for a
/// required field.
pub open spec fn build_body(f: Field) -> Seq<Tok> {
    let base = seq![name_tok(f), punct(':'), word("self"@), punct('.'), name_tok(f), punct('.'), word("clone"@)]
        + empty_parens();
    if is_optional(f) || each_attr(f) is Some {
        base
    } else {
        base + seq![punct('.'), word("unwrap"@)] + empty_parens()
    }
}

pub open spec fn struct_items(fs: Seq<Field>) -> Seq<Seq<Tok>> {
    fs.map_values(|f: Field| struct_item(f))
}

pub open spec fn factory_items(fs: Seq<Field>) -> Seq<Seq<Tok>> {
    fs.map_values(|f: Field| factory_item(f))
}

pub open spec fn method_items(fs: Seq<Field>) -> Seq<Seq<Tok>> {
    fs.map_values(|f: Field| method_item(f))
}

pub open spec fn missing_checks(fs: Seq<Field>) -> Seq<Seq<Tok>> {
    fs.map_values(|f: Field| missing_check(f))
}

pub open spec fn build_bodies(fs: Seq<Field>) -> Seq<Seq<Tok>> {
    fs.map_values(|f: Field| build_body(f))
}

/// The name of the builder: the struct's name followed by `Builder`.
pub open spec fn builder_name(s: IdentV) -> IdentV {
    IdentV { raw: false, name: s.name + "Builder"@, span: s.span }
}

/// `fn build(&mut self) -> std::result::Result<S, std::boxed::Box<dyn std::error::Error>>`
pub open spec fn build_signature(s: IdentV) -> Seq<Tok> {
    seq![word("fn"@), word("build"@)] + group(
        Delimiter::Parenthesis,
        seq![punct('&'), word("mut"@), word("self"@)],
    ) + arrow() + std_path("result"@, "Result"@) + seq![punct('<'), Tok::Ident(s), punct(',')]
        + std_path("boxed"@, "Box"@) + seq![punct('<'), word("dyn"@)] + std_path(
        "error"@,
        "Error"@,
    ) + seq![joint('>'), punct('>')]
}

/// The body of `build()`: the checks, then `std::result::Result::Ok(S { ... })`.
pub open spec fn build_block(s: IdentV, fs: Seq<Field>) -> Seq<Tok> {
    concat(missing_checks(fs)) + std_path("result"@, "Result"@) + path_sep() + seq![word("Ok"@)]
        + group(
        Delimiter::Parenthesis,
        seq![Tok::Ident(s)] + group(Delimiter::Brace, join_commas(build_bodies(fs))),
    )
}

/// `build()`, which fails on the first required field that was not set.
pub open spec fn build_method(s: IdentV, fs: Seq<Field>) -> Seq<Tok> {
    build_signature(s) + group(Delimiter::Brace, build_block(s, fs))
}

/// All the generated code for a struct named `s` with fields `fs`.
pub open spec fn builder_tokens(s: IdentV, fs: Seq<Field>) -> Seq<Tok> {
    let bn = Tok::Ident(builder_name(s));
    let st = Tok::Ident(s);
    seq![word("pub"@), word("struct"@), bn] + group(
        Delimiter::Brace,
        join_commas(struct_items(fs)),
    ) + seq![word("impl"@), st] + group(
        Delimiter::Brace,
        seq![word("pub"@), word("fn"@), word("builder"@)] + empty_parens() + arrow() + seq![bn]
            + group(
            Delimiter::Brace,
            seq![bn] + group(
                Delimiter::Brace,
                join_commas(factory_items(fs)),
            ),
        ),
    ) + seq![word("impl"@), bn] + group(
        Delimiter::Brace,
        concat(method_items(fs)) + build_method(s, fs),
    )
}

/// How the first pass over the fields ends: at the first malformed
/// `builder` attribute, at a field whose `Option` has empty angle brackets,
/// or with every field read.
pub enum FirstPass {
    Error(ErrorV),
    Panic,
    Done,
}

/// The first pass from field `k` on.
pub open spec fn first_pass(fs: Seq<Field>, k: int) -> FirstPass
    decreases fs.len() - k,
{
    if k < 0 || k >= fs.len() {
        FirstPass::Done
    } else {
        match each_attr(fs[k]) {
            Some(Err(e)) => FirstPass::Error(e),
            Some(Ok(_)) => first_pass(fs, k + 1),
            None => if inner_type(fs[k], "Option"@) is Panics {
                FirstPass::Panic
            } else {
                first_pass(fs, k + 1)
            },
        }
    }
}

/// What `#[derive(Builder)]` makes of its input: a panic unless the input
/// is a struct with named fields; the first malformed `builder` attribute as
/// an error; a panic where a setter's type argument is missing; else the
/// builder.
pub open spec fn builder_spec(ast: DeriveInput) -> ExpansionV {
    match named_fields(ast) {
        None => ExpansionV::Panic,
        Some(fs) => match first_pass(fs, 0) {
            FirstPass::Error(e) => ExpansionV::Error(e),
            FirstPass::Panic => ExpansionV::Panic,
            FirstPass::Done => if exists|i: int| 0 <= i < fs.len() && method_panics(#[trigger] fs[i]) {
                ExpansionV::Panic
            } else {
                ExpansionV::Tokens(builder_tokens(ast.ident@, fs))
            },
        },
    }
}

} // verus!

verus! {

fn emit_struct_item(out: &mut Vec<TokenTree>, f: &Field, plain: bool)
    requires
        plain == (each_attr(*f) is Some || inner_type(*f, "Option"@) is Found),
    ensures
        toks(final(out)@) == toks(old(out)@) + struct_item(*f),
{
    let ghost o = toks(out@);
    push_ident(out, &f.ident);
    push_punct(out, ':', false);
    if plain {
        extend_tokens(out, f.ty.tokens());
        assert(toks(out@) =~= o + struct_item(*f));
    } else {
        emit_std_path(out, "option", "Option");
        push_punct(out, '<', false);
        extend_tokens(out, f.ty.tokens());
        push_punct(out, '>', false);
        assert(toks(out@) =~= o + struct_item(*f));
    }
}

fn emit_factory_item(out: &mut Vec<TokenTree>, f: &Field, has_each: bool)
    requires
        has_each == each_attr(*f) is Some,
    ensures
        toks(final(out)@) == toks(old(out)@) + factory_item(*f),
{
    let ghost o = toks(out@);
    push_ident(out, &f.ident);
    push_punct(out, ':', false);
    if has_each {
        push_punct(out, '<', false);
        extend_tokens(out, f.ty.tokens());
        push_punct(out, '>', false);
        push_path_sep(out);
        push_word(out, "new");
        emit_empty_parens(out);
    } else {
        emit_std_path(out, "option", "Option");
        push_path_sep(out);
        push_word(out, "None");
    }
    assert(toks(out@) =~= o + factory_item(*f));
}

fn emit_setter_signature(out: &mut Vec<TokenTree>, p: &Ident, t: &Ty)
    ensures
        toks(final(out)@) == toks(old(out)@) + setter_signature(Tok::Ident(p@), ty_tokens(*t)),
{
    let ghost o = toks(out@);
    push_open(out, Delimiter::Parenthesis);
    push_punct(out, '&', false);
    push_word(out, "mut");
    push_word(out, "self");
    push_punct(out, ',', false);
    push_ident(out, p);
    push_punct(out, ':', false);
    extend_tokens(out, t.tokens());
    push_close(out, Delimiter::Parenthesis);
    emit_arrow(out);
    push_punct(out, '&', false);
    push_word(out, "mut");
    push_word(out, "Self");
    assert(toks(out@) =~= o + setter_signature(Tok::Ident(p@), ty_tokens(*t)));
}

fn emit_push_body(out: &mut Vec<TokenTree>, name: &Ident, setter: &Ident)
    ensures
        toks(final(out)@) == toks(old(out)@) + push_body(Tok::Ident(name@), Tok::Ident(setter@)),
{
    let ghost o = toks(out@);
    push_open(out, Delimiter::Brace);
    push_word(out, "self");
    push_punct(out, '.', false);
    push_ident(out, name);
    push_punct(out, '.', false);
    push_word(out, "push");
    push_open(out, Delimiter::Parenthesis);
    push_ident(out, setter);
    push_close(out, Delimiter::Parenthesis);
    push_punct(out, ';', false);
    push_word(out, "self");
    push_close(out, Delimiter::Brace);
    assert(toks(out@) =~= o + push_body(Tok::Ident(name@), Tok::Ident(setter@)));
}

fn emit_set_body(out: &mut Vec<TokenTree>, name: &Ident)
    ensures
        toks(final(out)@) == toks(old(out)@) + set_body(Tok::Ident(name@)),
{
    let ghost o = toks(out@);
    push_open(out, Delimiter::Brace);
    push_word(out, "self");
    push_punct(out, '.', false);
    push_ident(out, name);
    push_punct(out, '=', false);
    emit_std_path(out, "option", "Option");
    push_path_sep(out);
    push_word(out, "Some");
    push_open(out, Delimiter::Parenthesis);
    push_ident(out, name);
    push_close(out, Delimiter::Parenthesis);
    push_punct(out, ';', false);
    push_word(out, "self");
    push_close(out, Delimiter::Brace);
    assert(toks(out@) =~= o + set_body(Tok::Ident(name@)));
}

fn emit_method_item(out: &mut Vec<TokenTree>, f: &Field, has_each: bool, setter: &Ident, param: &Ty)
    requires
        has_each == each_attr(*f) is Some,
        has_each ==> setter@ == setter_ident(*f),
        *param == param_ty(*f),
    ensures
        toks(final(out)@) == toks(old(out)@) + method_item(*f),
{
    let ghost o = toks(out@);
    push_word(out, "fn");
    if has_each {
        push_ident(out, setter);
        emit_setter_signature(out, setter, param);
        emit_push_body(out, &f.ident, setter);
    } else {
        push_ident(out, &f.ident);
        emit_setter_signature(out, &f.ident, param);
        emit_set_body(out, &f.ident);
    }
    assert(toks(out@) =~= o + method_item(*f));
}

fn emit_missing_check(out: &mut Vec<TokenTree>, f: &Field, skip: bool)
    requires
        skip == (is_optional(*f) || each_attr(*f) is Some),
    ensures
        toks(final(out)@) == toks(old(out)@) + missing_check(*f),
{
    let ghost o = toks(out@);
    if skip {
        assert(toks(out@) =~= o + missing_check(*f));
        return;
    }
    push_word(out, "if");
    push_word(out, "let");
    emit_std_path(out, "option", "Option");
    push_path_sep(out);
    push_word(out, "None");
    push_punct(out, '=', false);
    push_word(out, "self");
    push_punct(out, '.', false);
    push_ident(out, &f.ident);
    push_open(out, Delimiter::Brace);
    push_word(out, "return");
    emit_std_path(out, "result", "Result");
    push_path_sep(out);
    push_word(out, "Err");
    push_open(out, Delimiter::Parenthesis);
    let mut msg = text_of("Field ");
    let name = f.ident.text();
    append_text(&mut msg, &name);
    append_str(&mut msg, " is missing");
    push_str_lit(out, msg);
    push_punct(out, '.', false);
    push_word(out, "into");
    emit_empty_parens(out);
    push_close(out, Delimiter::Parenthesis);
    push_close(out, Delimiter::Brace);
    assert(toks(out@) =~= o + missing_check(*f));
}

fn emit_build_body(out: &mut Vec<TokenTree>, f: &Field, keep: bool)
    requires
        keep == (is_optional(*f) || each_attr(*f) is Some),
    ensures
        toks(final(out)@) == toks(old(out)@) + build_body(*f),
{
    let ghost o = toks(out@);
    push_ident(out, &f.ident);
    push_punct(out, ':', false);
    push_word(out, "self");
    push_punct(out, '.', false);
    push_ident(out, &f.ident);
    push_punct(out, '.', false);
    push_word(out, "clone");
    emit_empty_parens(out);
    if !keep {
        push_punct(out, '.', false);
        push_word(out, "unwrap");
        emit_empty_parens(out);
    }
    assert(toks(out@) =~= o + build_body(*f));
}

} // verus!

verus! {

/// Everything a field needs to be read without a panic or an error.
pub open spec fn field_ok(f: Field) -> bool {
    &&& !(each_attr(f) matches Some(Err(_)))
    &&& each_attr(f) is None ==> !(inner_type(f, "Option"@) is Panics)
}

fn method_panics_at(f: &Field, has_each: bool) -> (r: bool)
    requires
        has_each == each_attr(*f) is Some,
    ensures
        r == method_panics(*f),
{
    if is_field_optional(f) {
        extract_panics(f, "Option") || extract_inner_type(f, "Option").is_none()
    } else if has_each {
        extract_panics(f, "Vec") || extract_inner_type(f, "Vec").is_none()
    } else {
        false
    }
}

fn emit_builder_struct(
    out: &mut Vec<TokenTree>,
    s: &Ident,
    bn: &Ident,
    items: &Vec<TokenTree>,
    factories: &Vec<TokenTree>,
)
    ensures
        toks(final(out)@) == toks(old(out)@) + seq![word("pub"@), word("struct"@), Tok::Ident(bn@)]
            + group(Delimiter::Brace, toks(items@)) + seq![word("impl"@), Tok::Ident(s@)] + group(
            Delimiter::Brace,
            seq![word("pub"@), word("fn"@), word("builder"@)] + empty_parens() + arrow() + seq![
                Tok::Ident(bn@),
            ] + group(
                Delimiter::Brace,
                seq![Tok::Ident(bn@)] + group(Delimiter::Brace, toks(factories@)),
            ),
        ),
{
    let ghost o = toks(out@);
    push_word(out, "pub");
    push_word(out, "struct");
    push_ident(out, bn);
    push_open(out, Delimiter::Brace);
    extend_tokens(out, items);
    push_close(out, Delimiter::Brace);
    push_word(out, "impl");
    push_ident(out, s);
    push_open(out, Delimiter::Brace);
    push_word(out, "pub");
    push_word(out, "fn");
    push_word(out, "builder");
    emit_empty_parens(out);
    emit_arrow(out);
    push_ident(out, bn);
    push_open(out, Delimiter::Brace);
    push_ident(out, bn);
    push_open(out, Delimiter::Brace);
    extend_tokens(out, factories);
    push_close(out, Delimiter::Brace);
    push_close(out, Delimiter::Brace);
    push_close(out, Delimiter::Brace);
    assert(toks(out@) =~= o + seq![word("pub"@), word("struct"@), Tok::Ident(bn@)] + group(
        Delimiter::Brace,
        toks(items@),
    ) + seq![word("impl"@), Tok::Ident(s@)] + group(
        Delimiter::Brace,
        seq![word("pub"@), word("fn"@), word("builder"@)] + empty_parens() + arrow() + seq![
            Tok::Ident(bn@),
        ] + group(
            Delimiter::Brace,
            seq![Tok::Ident(bn@)] + group(Delimiter::Brace, toks(factories@)),
        ),
    ));
}

fn emit_build_signature(out: &mut Vec<TokenTree>, s: &Ident)
    ensures
        toks(final(out)@) == toks(old(out)@) + build_signature(s@),
{
    let ghost o = toks(out@);
    push_word(out, "fn");
    push_word(out, "build");
    push_open(out, Delimiter::Parenthesis);
    push_punct(out, '&', false);
    push_word(out, "mut");
    push_word(out, "self");
    push_close(out, Delimiter::Parenthesis);
    emit_arrow(out);
    emit_std_path(out, "result", "Result");
    push_punct(out, '<', false);
    push_ident(out, s);
    push_punct(out, ',', false);
    emit_std_path(out, "boxed", "Box");
    push_punct(out, '<', false);
    push_word(out, "dyn");
    emit_std_path(out, "error", "Error");
    push_punct(out, '>', true);
    push_punct(out, '>', false);
    assert(toks(out@) =~= o + build_signature(s@));
}

fn emit_build_block(
    out: &mut Vec<TokenTree>,
    s: &Ident,
    checks: &Vec<TokenTree>,
    bodies: &Vec<TokenTree>,
    fs: Ghost<Seq<Field>>,
)
    requires
        toks(checks@) == concat(missing_checks(fs@)),
        toks(bodies@) == join_commas(build_bodies(fs@)),
    ensures
        toks(final(out)@) == toks(old(out)@) + build_block(s@, fs@),
{
    let ghost o = toks(out@);
    extend_tokens(out, checks);
    emit_std_path(out, "result", "Result");
    push_path_sep(out);
    push_word(out, "Ok");
    push_open(out, Delimiter::Parenthesis);
    push_ident(out, s);
    push_open(out, Delimiter::Brace);
    extend_tokens(out, bodies);
    push_close(out, Delimiter::Brace);
    push_close(out, Delimiter::Parenthesis);
    assert(toks(out@) =~= o + build_block(s@, fs@));
}

fn emit_build_method(
    out: &mut Vec<TokenTree>,
    s: &Ident,
    checks: &Vec<TokenTree>,
    bodies: &Vec<TokenTree>,
    fs: Ghost<Seq<Field>>,
)
    requires
        toks(checks@) == concat(missing_checks(fs@)),
        toks(bodies@) == join_commas(build_bodies(fs@)),
    ensures
        toks(final(out)@) == toks(old(out)@) + build_method(s@, fs@),
{
    let ghost o = toks(out@);
    emit_build_signature(out, s);
    push_open(out, Delimiter::Brace);
    emit_build_block(out, s, checks, bodies, fs);
    push_close(out, Delimiter::Brace);
    assert(toks(out@) =~= o + build_method(s@, fs@));
}

/// The code of `#[derive(Builder)]` for an input.
pub fn do_derive(ast: &DeriveInput) -> (r: Expansion)
    ensures
        r@ == builder_spec(*ast),
{
    let fields = match derive_get_struct_fields(ast) {
        Some(f) => f,
        None => {
            return Expansion::Panic;
        },
    };
    let ghost fs = fields@;
    // the slots: the first malformed attribute stops everything
    let mut k: usize = 0;
    while k < fields.len()
        invariant
            fs == fields@,
            named_fields(*ast) == Some(fs),
            k <= fields.len(),
            first_pass(fs, 0) == first_pass(fs, k as int),
            forall|j: int| 0 <= j < k ==> field_ok(#[trigger] fs[j]),
        decreases fields.len() - k,
    {
        let f = &fields[k];
        match get_each_attr_name(f) {
            Some(Err(e)) => {
                return Expansion::Error(e);
            },
            Some(Ok(_)) => {},
            None => {
                if extract_panics(f, "Option") {
                    return Expansion::Panic;
                }
            },
        }
        k = k + 1;
    }
    assert(first_pass(fs, 0) is Done);
    // the setters: a missing type argument panics
    let mut k: usize = 0;
    while k < fields.len()
        invariant
            fs == fields@,
            k <= fields.len(),
            forall|j: int| 0 <= j < k ==> !method_panics(#[trigger] fs[j]),
            named_fields(*ast) == Some(fs),
            first_pass(fs, 0) is Done,
        decreases fields.len() - k,
    {
        let f = &fields[k];
        let each = get_each_attr_name(f);
        if method_panics_at(f, each.is_some()) {
            assert(method_panics(fs[k as int]));
            return Expansion::Panic;
        }
        k = k + 1;
    }
    let mut items: Vec<TokenTree> = Vec::new();
    let mut factories: Vec<TokenTree> = Vec::new();
    let mut methods: Vec<TokenTree> = Vec::new();
    let mut checks: Vec<TokenTree> = Vec::new();
    let mut bodies: Vec<TokenTree> = Vec::new();
    let mut k: usize = 0;
    while k < fields.len()
        invariant
            fs == fields@,
            k <= fields.len(),
            forall|j: int| 0 <= j < fs.len() ==> field_ok(#[trigger] fs[j]),
            forall|j: int| 0 <= j < fs.len() ==> !method_panics(#[trigger] fs[j]),
            toks(items@) == join_commas(struct_items(fs).take(k as int)),
            toks(factories@) == join_commas(factory_items(fs).take(k as int)),
            toks(methods@) == concat(method_items(fs).take(k as int)),
            toks(checks@) == concat(missing_checks(fs).take(k as int)),
            toks(bodies@) == join_commas(build_bodies(fs).take(k as int)),
        decreases fields.len() - k,
    {
        let f = &fields[k];
        assert(field_ok(fs[k as int]));
        assert(!method_panics(fs[k as int]));
        let each = get_each_attr_name(f);
        let has_each = each.is_some();
        let optional = is_field_optional(f);
        proof {
            lemma_join_commas_push(struct_items(fs), k as int);
            lemma_join_commas_push(factory_items(fs), k as int);
            lemma_concat_push(method_items(fs), k as int);
            lemma_concat_push(missing_checks(fs), k as int);
            lemma_join_commas_push(build_bodies(fs), k as int);
        }
        if k > 0 {
            push_punct(&mut items, ',', false);
            push_punct(&mut factories, ',', false);
            push_punct(&mut bodies, ',', false);
        }
        let plain = has_each || extract_inner_type(f, "Option").is_some();
        emit_struct_item(&mut items, f, plain);
        emit_factory_item(&mut factories, f, has_each);
        let setter = match &each {
            Some(Ok(s)) => Ident::from_text(crate::tokens::copy_text(s), f.ident.span),
            _ => f.ident.copy(),
        };
        let param: &Ty = if optional {
            match extract_inner_type(f, "Option") {
                Some(t) => t,
                None => &f.ty,
            }
        } else if has_each {
            match extract_inner_type(f, "Vec") {
                Some(t) => t,
                None => &f.ty,
            }
        } else {
            &f.ty
        };
        emit_method_item(&mut methods, f, has_each, &setter, param);
        emit_missing_check(&mut checks, f, optional || has_each);
        emit_build_body(&mut bodies, f, optional || has_each);
        k = k + 1;
    }
    assert(struct_items(fs).take(fs.len() as int) =~= struct_items(fs));
    assert(factory_items(fs).take(fs.len() as int) =~= factory_items(fs));
    assert(method_items(fs).take(fs.len() as int) =~= method_items(fs));
    assert(missing_checks(fs).take(fs.len() as int) =~= missing_checks(fs));
    assert(build_bodies(fs).take(fs.len() as int) =~= build_bodies(fs));
    let s = &ast.ident;
    let mut bname = crate::tokens::copy_text(&s.name);
    append_str(&mut bname, "Builder");
    let bn = Ident { raw: false, name: bname, span: s.span };
    assert(bn@ == builder_name(s@));
    let mut out: Vec<TokenTree> = Vec::new();
    emit_builder_struct(&mut out, s, &bn, &items, &factories);
    push_word(&mut out, "impl");
    push_ident(&mut out, &bn);
    push_open(&mut out, Delimiter::Brace);
    extend_tokens(&mut out, &methods);
    emit_build_method(&mut out, s, &checks, &bodies, Ghost(fs));
    push_close(&mut out, Delimiter::Brace);
    assert(!(exists|i: int| 0 <= i < fs.len() && method_panics(#[trigger] fs[i])));
    assert(toks(out@) =~= builder_tokens(s@, fs));
    Expansion::Tokens(out)
}

} // verus!

verus! {

/// `#[derive(Builder)]`: the builder, an error written as `compile_error!`,
/// or a panic.
pub fn derive(ast: &DeriveInput) -> (r: Expansion)
    ensures
        r@ == rendered(builder_spec(*ast)),
{
    render(do_derive(ast))
}

} // verus!

verus! {

/// The types of a field that the builder copies are well nested.
pub open spec fn field_types_nested(f: Field) -> bool {
    &&& crate::nesting::balanced(ty_tokens(f.ty))
    &&& crate::nesting::balanced(ty_tokens(param_ty(f)))
}

proof fn lemma_struct_item_balanced(f: Field)
    requires
        field_types_nested(f),
    ensures
        crate::nesting::balanced(struct_item(f)),
{
    broadcast use crate::nesting::group_balanced;

}

proof fn lemma_factory_item_balanced(f: Field)
    requires
        field_types_nested(f),
    ensures
        crate::nesting::balanced(factory_item(f)),
{
    broadcast use crate::nesting::group_balanced;

}

proof fn lemma_method_item_balanced(f: Field)
    requires
        field_types_nested(f),
    ensures
        crate::nesting::balanced(method_item(f)),
{
    broadcast use crate::nesting::group_balanced;

}

proof fn lemma_missing_check_balanced(f: Field)
    ensures
        crate::nesting::balanced(missing_check(f)),
{
    broadcast use crate::nesting::group_balanced;

}

proof fn lemma_build_body_balanced(f: Field)
    ensures
        crate::nesting::balanced(build_body(f)),
{
    broadcast use crate::nesting::group_balanced;

}

/// The builder is well nested when the field types it copies are.
pub proof fn lemma_builder_balanced(s: IdentV, fs: Seq<Field>)
    requires
        forall|i: int| 0 <= i < fs.len() ==> field_types_nested(#[trigger] fs[i]),
    ensures
        crate::nesting::balanced(builder_tokens(s, fs)),
{
    assert forall|i: int| 0 <= i < fs.len() implies crate::nesting::balanced(
        #[trigger] struct_items(fs)[i],
    ) by {
        lemma_struct_item_balanced(fs[i]);
    }
    assert forall|i: int| 0 <= i < fs.len() implies crate::nesting::balanced(
        #[trigger] factory_items(fs)[i],
    ) by {
        lemma_factory_item_balanced(fs[i]);
    }
    assert forall|i: int| 0 <= i < fs.len() implies crate::nesting::balanced(
        #[trigger] method_items(fs)[i],
    ) by {
        lemma_method_item_balanced(fs[i]);
    }
    assert forall|i: int| 0 <= i < fs.len() implies crate::nesting::balanced(
        #[trigger] missing_checks(fs)[i],
    ) by {
        lemma_missing_check_balanced(fs[i]);
    }
    assert forall|i: int| 0 <= i < fs.len() implies crate::nesting::balanced(
        #[trigger] build_bodies(fs)[i],
    ) by {
        lemma_build_body_balanced(fs[i]);
    }
    crate::nesting::lemma_join_commas_balanced(struct_items(fs));
    crate::nesting::lemma_join_commas_balanced(factory_items(fs));
    crate::nesting::lemma_concat_balanced(method_items(fs));
    crate::nesting::lemma_concat_balanced(missing_checks(fs));
    crate::nesting::lemma_join_commas_balanced(build_bodies(fs));
    lemma_builder_shell_balanced(s, fs);
}

#[verifier::spinoff_prover]
#[verifier::rlimit(40)]
proof fn lemma_builder_shell_balanced(s: IdentV, fs: Seq<Field>)
    requires
        crate::nesting::balanced(join_commas(struct_items(fs))),
        crate::nesting::balanced(join_commas(factory_items(fs))),
        crate::nesting::balanced(concat(method_items(fs))),
        crate::nesting::balanced(concat(missing_checks(fs))),
        crate::nesting::balanced(join_commas(build_bodies(fs))),
    ensures
        crate::nesting::balanced(builder_tokens(s, fs)),
{
    broadcast use crate::nesting::group_balanced;

    assert(crate::nesting::balanced(build_signature(s)));
    assert(crate::nesting::balanced(build_block(s, fs)));
}

/// `if let std::option::Option::None = self.f { return
/// std::result::Result::Err("Field f is missing".into()) }` for a field `f`.
pub open spec fn required_check(f: Field) -> Seq<Tok> {
    let message = "Field "@ + ident_text(f.ident@) + " is missing"@;
    seq![word("if"@), word("let"@)] + std_path("option"@, "Option"@) + path_sep() + seq![
        word("None"@),
        punct('='),
        word("self"@),
        punct('.'),
        Tok::Ident(f.ident@),
    ] + group(
        Delimiter::Brace,
        seq![word("return"@)] + std_path("result"@, "Result"@) + path_sep() + seq![word("Err"@)]
            + group(
            Delimiter::Parenthesis,
            seq![
                Tok::Literal { lit: crate::tokens::LitV::Str(message), span: crate::tokens::Span::CallSite },
                punct('.'),
                word("into"@),
            ] + group(Delimiter::Parenthesis, seq![]),
        ),
    )
}

proof fn lemma_concat_split(parts: Seq<Seq<Tok>>, n: int)
    requires
        0 <= n <= parts.len(),
    ensures
        concat(parts) == concat(parts.take(n)) + concat(parts.skip(n)),
    decreases parts.len(),
{
    if n == parts.len() {
        assert(parts.take(n) =~= parts);
        assert(parts.skip(n) =~= Seq::<Seq<Tok>>::empty());
        assert(concat(parts) + Seq::<Tok>::empty() =~= concat(parts));
    } else {
        lemma_concat_split(parts.drop_last(), n);
        assert(parts.drop_last().take(n) =~= parts.take(n));
        assert(parts.skip(n).drop_last() =~= parts.drop_last().skip(n));
        assert(parts.skip(n).last() == parts.last());
    }
}

/// Every required field is checked in `build()`: when the derive succeeds,
/// its output holds, for each field that is neither an `Option` (a path
/// whose last segment is `Option`) nor marked `#[builder(each = ...)]`,
/// whatever its type, the check that returns the error "Field f is
/// missing" when the field was not set.
pub proof fn lemma_required_field_checked(ast: DeriveInput, i: int)
    requires
        builder_spec(ast) is Tokens,
        named_fields(ast) is Some,
        0 <= i < named_fields(ast).unwrap().len(),
        !(last_segment(named_fields(ast).unwrap()[i].ty) matches Some(s) && ident_text(s.ident@)
            == "Option"@),
        each_attr(named_fields(ast).unwrap()[i]) is None,
    ensures
        ({
            let t = builder_spec(ast)->Tokens_0;
            let c = required_check(named_fields(ast).unwrap()[i]);
            exists|j: int|
                0 <= j && j + c.len() <= t.len() && #[trigger] t.subrange(j, j + c.len() as int) == c
        }),
{
    let fs = named_fields(ast).unwrap();
    let t = builder_spec(ast)->Tokens_0;
    let s = ast.ident@;
    assert(t == builder_tokens(s, fs));
    let ms = missing_checks(fs);
    let c = required_check(fs[i]);
    assert(ms[i] == missing_check(fs[i]));
    assert(ms[i] =~= c);
    lemma_concat_split(ms, i + 1);
    lemma_concat_push(ms, i);
    let x = concat(ms.take(i));
    let y = concat(ms.skip(i + 1));
    assert(concat(ms) == x + c + y);
    let bn = Tok::Ident(builder_name(s));
    let head = seq![word("pub"@), word("struct"@), bn] + group(
        Delimiter::Brace,
        join_commas(struct_items(fs)),
    ) + seq![word("impl"@), Tok::Ident(s)] + group(
        Delimiter::Brace,
        seq![word("pub"@), word("fn"@), word("builder"@)] + empty_parens() + arrow() + seq![bn]
            + group(Delimiter::Brace, seq![bn] + group(Delimiter::Brace, join_commas(factory_items(fs)))),
    ) + seq![word("impl"@), bn];
    let m = concat(method_items(fs));
    let sig = build_signature(s);
    let rest = std_path("result"@, "Result"@) + path_sep() + seq![word("Ok"@)] + group(
        Delimiter::Parenthesis,
        seq![Tok::Ident(s)] + group(Delimiter::Brace, join_commas(build_bodies(fs))),
    );
    assert(build_block(s, fs) == concat(ms) + rest);
    assert(t == head + group(Delimiter::Brace, m + sig + group(Delimiter::Brace, concat(ms) + rest)));
    lemma_nested_split(head, m, sig, x + c + y, rest);
    let pre = head + seq![open(Delimiter::Brace)] + m + sig + seq![open(Delimiter::Brace)];
    let post = rest + seq![crate::tokens::close(Delimiter::Brace), crate::tokens::close(Delimiter::Brace)];
    lemma_middle(pre, x, c, y, post);
    let j: int = (pre.len() + x.len()) as int;
    assert(t.subrange(j, j + c.len() as int) == c);
}

proof fn lemma_nested_split(head: Seq<Tok>, m: Seq<Tok>, sig: Seq<Tok>, k: Seq<Tok>, rest: Seq<Tok>)
    ensures
        head + group(Delimiter::Brace, m + sig + group(Delimiter::Brace, k + rest)) == (head + seq![
            open(Delimiter::Brace),
        ] + m + sig + seq![open(Delimiter::Brace)]) + k + (rest + seq![
            crate::tokens::close(Delimiter::Brace),
            crate::tokens::close(Delimiter::Brace),
        ]),
{
    assert(head + group(Delimiter::Brace, m + sig + group(Delimiter::Brace, k + rest)) =~= (head
        + seq![open(Delimiter::Brace)] + m + sig + seq![open(Delimiter::Brace)]) + k + (rest + seq![
        crate::tokens::close(Delimiter::Brace),
        crate::tokens::close(Delimiter::Brace),
    ]));
}

proof fn lemma_middle(p: Seq<Tok>, x: Seq<Tok>, c: Seq<Tok>, y: Seq<Tok>, q: Seq<Tok>)
    ensures
        (p + (x + c + y) + q).subrange((p.len() + x.len()) as int, (p.len() + x.len() + c.len()) as int) == c,
        (p + (x + c + y) + q) == p + x + c + y + q,
{
    assert((p + (x + c + y) + q) =~= p + x + c + y + q);
    assert((p + (x + c + y) + q).subrange((p.len() + x.len()) as int, (p.len() + x.len() + c.len()) as int) =~= c);
}

} // verus!
