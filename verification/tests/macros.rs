use macro_workshop::bitfield::{
    bitfield, define_field_width_enums, generate_real_struct,
    generate_total_bitwidth_devide_by_8_expression, get_struct_fields, ItemStruct,
};
use macro_workshop::builder::{
    derive as builder_derive, derive_get_struct_fields, do_derive as builder_do_derive,
    extract_inner_type, get_each_attr_name, is_field_optional,
};
use macro_workshop::debug::{
    derive as debug_derive, get_inert_attribute_of_field, get_struct_escape_hatch,
    inject_escape_hatch, inject_trait_bound,
};
use macro_workshop::generics::{impl_generics, ty_generics, where_clause};
use macro_workshop::decimal::{i64_text, parse_i64, IntError};
use macro_workshop::seq::{
    accepts_ident, body_expands, bound_value, expand, parse_seq_def, seq_expand, seq_expansion,
    try_get_seq_ident,
};
use macro_workshop::sorted::{
    check, check_sort, do_check_check, do_sort_check, find_misplaced, join_path_segments, sorted,
    text_less, visit_expr_match, ArmPat, Item, MatchExpr,
};
use macro_workshop::syntax::{
    Attribute, Data, DeriveInput, Field, Fields, GenericArgument, GenericParam, Generics, Lit,
    Meta, MetaPath, MetaPathSegment, NestedMeta, PathArguments, PathSegment, Ty,
};
use macro_workshop::tokens::{
    render, to_compile_error, CompileError, Delimiter, Expansion, Ident, LineColumn, LitRepr, Span,
    TokenTree,
};
use proc_macro2::{Delimiter as PmDelimiter, Spacing, TokenStream, TokenTree as PmTree};

// ---------------------------------------------------------------------------
// helpers: lexing source text into the flat model, and printing it back
// ---------------------------------------------------------------------------

fn span_of(s: proc_macro2::Span, id: u64) -> Span {
    let a = s.start();
    let b = s.end();
    Span::Source {
        id,
        start: LineColumn { line: a.line as u64, column: a.column as u64 },
        end: LineColumn { line: b.line as u64, column: b.column as u64 },
    }
}

fn delim(d: PmDelimiter) -> Delimiter {
    match d {
        PmDelimiter::Parenthesis => Delimiter::Parenthesis,
        PmDelimiter::Brace => Delimiter::Brace,
        PmDelimiter::Bracket => Delimiter::Bracket,
        PmDelimiter::None => Delimiter::Invisible,
    }
}

fn flatten(ts: TokenStream, out: &mut Vec<TokenTree>, next_id: &mut u64) {
    for tt in ts {
        *next_id += 1;
        let id = *next_id;
        match tt {
            PmTree::Group(g) => {
                out.push(TokenTree::Open {
                    delim: delim(g.delimiter()),
                    span: span_of(g.span(), id),
                    span_open: span_of(g.span_open(), id),
                });
                flatten(g.stream(), out, next_id);
                out.push(TokenTree::Close { delim: delim(g.delimiter()) });
            }
            PmTree::Ident(i) => {
                let text = i.to_string();
                let (raw, name) = match text.strip_prefix("r#") {
                    Some(rest) => (true, rest.to_string()),
                    None => (false, text),
                };
                out.push(TokenTree::Ident(Ident {
                    raw,
                    name: name.chars().collect(),
                    span: span_of(i.span(), id),
                }));
            }
            PmTree::Punct(p) => out.push(TokenTree::Punct {
                ch: p.as_char(),
                joint: p.spacing() == Spacing::Joint,
                span: span_of(p.span(), id),
            }),
            PmTree::Literal(l) => out.push(TokenTree::Literal {
                repr: LitRepr::Source(l.to_string().chars().collect()),
                span: span_of(l.span(), id),
            }),
        }
    }
}

fn lex(src: &str) -> Vec<TokenTree> {
    let ts: TokenStream = src.parse().unwrap();
    let mut out = Vec::new();
    let mut id = 0;
    flatten(ts, &mut out, &mut id);
    out
}

fn text(v: &[char]) -> String {
    v.iter().collect()
}

/// The tokens as text, one space between tokens, none after a joint
/// punctuation.
fn show(tokens: &[TokenTree]) -> String {
    let mut s = String::new();
    let mut glue = false;
    for t in tokens {
        if !s.is_empty() && !glue {
            s.push(' ');
        }
        glue = false;
        match t {
            TokenTree::Open { delim, .. } => s.push_str(match delim {
                Delimiter::Parenthesis => "(",
                Delimiter::Brace => "{",
                Delimiter::Bracket => "[",
                Delimiter::Invisible => "«",
            }),
            TokenTree::Close { delim } => s.push_str(match delim {
                Delimiter::Parenthesis => ")",
                Delimiter::Brace => "}",
                Delimiter::Bracket => "]",
                Delimiter::Invisible => "»",
            }),
            TokenTree::Ident(i) => {
                if i.raw {
                    s.push_str("r#");
                }
                s.push_str(&text(&i.name));
            }
            TokenTree::Punct { ch, joint, .. } => {
                s.push(*ch);
                glue = *joint;
            }
            TokenTree::Literal { repr, .. } => match repr {
                LitRepr::Source(t) => s.push_str(&text(t)),
                LitRepr::Str(t) => s.push_str(&format!("{:?}", text(t))),
                LitRepr::Int(v) => s.push_str(&v.to_string()),
                LitRepr::Usize(v) => s.push_str(&format!("{}usize", v)),
            },
            TokenTree::Verbatim { text: t } => s.push_str(&text(t)),
        }
    }
    s
}

fn tokens_of(e: Expansion) -> Vec<TokenTree> {
    match e {
        Expansion::Tokens(t) => t,
        other => panic!("expected tokens, got {:?}", other),
    }
}

fn error_of(e: Expansion) -> CompileError {
    match e {
        Expansion::Error(e) => e,
        other => panic!("expected an error, got {:?}", other),
    }
}

fn word(s: &str) -> Ident {
    Ident { raw: false, name: s.chars().collect(), span: Span::CallSite }
}

fn ident_at(s: &str, id: u64) -> Ident {
    let p = LineColumn { line: 1, column: id };
    Ident { raw: false, name: s.chars().collect(), span: Span::Source { id, start: p, end: p } }
}

fn source_span(id: u64) -> Span {
    let p = LineColumn { line: 1, column: id };
    Span::Source { id, start: p, end: p }
}

// ---------------------------------------------------------------------------
// seq!
// ---------------------------------------------------------------------------

#[test]
fn seq_replaces_the_identifier_by_each_number() {
    let out = tokens_of(macro_workshop::seq::seq(&lex("N in 0..3 { x N , }")));
    assert_eq!(show(&out), "x 0 , x 1 , x 2 ,");
}

#[test]
fn seq_empty_range_gives_nothing() {
    let out = tokens_of(macro_workshop::seq::seq(&lex("N in 4..4 { x N }")));
    assert!(out.is_empty());
    let out = tokens_of(macro_workshop::seq::seq(&lex("N in 5..1 { x N }")));
    assert!(out.is_empty());
}

#[test]
fn seq_rebuilds_groups_at_the_call_site() {
    let out = tokens_of(macro_workshop::seq::seq(&lex("N in 1..2 { f(N) [N] }")));
    assert_eq!(show(&out), "f ( 1 ) [ 1 ]");
    match &out[1] {
        TokenTree::Open { span, span_open, .. } => {
            assert_eq!(*span, Span::CallSite);
            assert_eq!(*span_open, Span::CallSite);
        }
        other => panic!("expected a group, got {:?}", other),
    }
}

#[test]
fn seq_pastes_prefix_and_number() {
    let out = tokens_of(macro_workshop::seq::seq(&lex("N in 1..3 { Variant#N#, }")));
    assert_eq!(show(&out), "Variant1 , Variant2 ,");
}

#[test]
fn seq_pastes_prefix_number_and_suffix() {
    let out = tokens_of(macro_workshop::seq::seq(&lex("N in 0..2 { f#N#_suffix }")));
    assert_eq!(show(&out), "f0_suffix f1_suffix");
}

#[test]
fn seq_does_not_paste_a_separated_suffix() {
    // the suffix is not glued to the second `#`, so it stays a token of its own
    let out = tokens_of(macro_workshop::seq::seq(&lex("N in 3..4 { f#N# tail }")));
    assert_eq!(show(&out), "f3 tail");
}

#[test]
fn seq_pasting_takes_the_span_of_the_second_hash() {
    let input = lex("N in 7..8 { f#N#; }");
    let hash2 = match &input[10] {
        TokenTree::Punct { ch: '#', span, .. } => *span,
        other => panic!("unexpected {:?}", other),
    };
    let out = tokens_of(macro_workshop::seq::seq(&input));
    match &out[0] {
        TokenTree::Ident(i) => {
            assert_eq!(text(&i.name), "f7");
            assert_eq!(i.span, hash2);
        }
        other => panic!("unexpected {:?}", other),
    }
}

#[test]
fn seq_single_hash_form_keeps_the_tokens() {
    let out = tokens_of(macro_workshop::seq::seq(&lex("N in 2..3 { a#N b }")));
    assert_eq!(show(&out), "a # 2 b");
}

#[test]
fn seq_paste_at_the_end_of_a_group_panics() {
    assert!(matches!(macro_workshop::seq::seq(&lex("N in 0..1 { f#N }")), Expansion::Panic));
    assert!(matches!(macro_workshop::seq::seq(&lex("N in 0..1 { (f#N#) }")), Expansion::Panic));
}

#[test]
fn seq_paste_at_the_end_of_an_empty_range_does_not_panic() {
    let out = tokens_of(macro_workshop::seq::seq(&lex("N in 1..1 { f#N }")));
    assert!(out.is_empty());
}

#[test]
fn seq_negative_numbers() {
    let out = tokens_of(macro_workshop::seq::seq(&lex("N in -2..0 { N }")));
    assert_eq!(show(&out), "-2 -1");
}

#[test]
fn seq_literal_forms() {
    let out = tokens_of(macro_workshop::seq::seq(&lex("N in 0x2..0b100 { N }")));
    assert_eq!(show(&out), "2 3");
    let out = tokens_of(macro_workshop::seq::seq(&lex("N in 1_0..1_2u8 { N }")));
    assert_eq!(show(&out), "10 11");
}

#[test]
fn seq_bound_from_digits() {
    assert_eq!(bound_value(&chars("-12"), Span::CallSite, Span::CallSite).unwrap(), -12);
    let max = bound_value(&chars("9223372036854775807"), Span::CallSite, Span::CallSite);
    assert_eq!(max.unwrap(), i64::MAX);
    let e = bound_value(&chars("9223372036854775808"), Span::CallSite, Span::CallSite).unwrap_err();
    assert_eq!(text(&e.message), "number too large to fit in target type");
}

#[test]
fn seq_identifier_words() {
    assert!(accepts_ident(&word("N")));
    assert!(!accepts_ident(&word("fn")));
    assert!(!accepts_ident(&word("_")));
    let raw = Ident { raw: true, name: "fn".chars().collect(), span: Span::CallSite };
    assert!(accepts_ident(&raw));
}

#[test]
fn seq_parse_errors() {
    let e = error_of(seq_expansion(&lex("")));
    assert_eq!(text(&e.message), "unexpected end of input, expected identifier");
    assert_eq!(e.start, Span::CallSite);
    let e = error_of(seq_expansion(&lex("fn in 0..1 {}")));
    assert_eq!(text(&e.message), "expected identifier");
    let e = error_of(seq_expansion(&lex("N of 0..1 {}")));
    assert_eq!(text(&e.message), "expected `in`");
    let e = error_of(seq_expansion(&lex("N in x..1 {}")));
    assert_eq!(text(&e.message), "expected integer literal");
    let e = error_of(seq_expansion(&lex("N in 0..=1 {}")));
    assert_eq!(text(&e.message), "expected integer literal");
    let e = error_of(seq_expansion(&lex("N in 0,1 {}")));
    assert_eq!(text(&e.message), "expected `..`");
    let e = error_of(seq_expansion(&lex("N in 0..1 ()")));
    assert_eq!(text(&e.message), "expected curly braces");
    let e = error_of(seq_expansion(&lex("N in 0..1 {} x")));
    assert_eq!(text(&e.message), "unexpected token");
    let e = error_of(seq_expansion(&lex("N in 0..99999999999999999999 {}")));
    assert_eq!(text(&e.message), "number too large to fit in target type");
    let e = error_of(seq_expansion(&lex("N in -99999999999999999999..0 {}")));
    assert_eq!(text(&e.message), "number too small to fit in target type");
    let e = error_of(seq_expansion(&lex("N in 0..1.5 {}")));
    assert_eq!(text(&e.message), "expected integer literal");
}

#[test]
fn seq_rendered_errors_become_compile_error() {
    let out = tokens_of(macro_workshop::seq::seq(&lex("N in 0..1 {} x")));
    assert_eq!(show(&out), "compile_error ! { \"unexpected token\" }");
}

#[test]
fn seq_unrecognized_literal_panics() {
    assert!(matches!(macro_workshop::seq::seq(&lex("N in c\"x\"..1 {}")), Expansion::Panic));
}

#[test]
fn seq_parse_def_fields() {
    let d = parse_seq_def(&lex("I in 3..5 { a I }")).unwrap().unwrap();
    assert_eq!(text(&d.ident.name), "I");
    assert_eq!(d.start_num, 3);
    assert_eq!(d.stop_num, 5);
    assert_eq!(show(&d.body), "a I");
    let out = seq_expand(&d);
    assert_eq!(show(&out), "a 3 a 4");
}

#[test]
fn seq_expand_and_checks() {
    let body = lex("g#N#x N");
    let target = word("N");
    assert!(body_expands(&body, &target, 42));
    let out = expand(&body, &target, 42);
    assert_eq!(show(&out), "g42x 42");
    assert!(!body_expands(&lex("g#N"), &target, 42));
    assert!(!body_expands(&lex("f#N# y"), &target, -3));
    assert!(body_expands(&lex("f#N# y"), &target, 3));
    assert!(!body_expands(&lex("r#x#N# y"), &target, 3));
    assert!(matches!(seq_expansion(&lex("N in -1..1 { f#N# y }")), Expansion::Panic));
}

#[test]
fn seq_try_get_seq_ident_moves_the_index() {
    let tokens = lex("a#N#b c");
    let target: Vec<char> = "N".chars().collect();
    let mut idx = 0usize;
    let r = try_get_seq_ident(&mut idx, &tokens, &target, 5).unwrap();
    assert_eq!(idx, 4);
    assert_eq!(show(&[r]), "a5b");
    let mut idx = 5usize;
    assert!(try_get_seq_ident(&mut idx, &tokens, &target, 5).is_none());
    assert_eq!(idx, 5);
    let mut idx = 1usize;
    assert!(try_get_seq_ident(&mut idx, &tokens, &target, 5).is_none());
    assert_eq!(idx, 1);
    let tokens = lex("N + 1");
    let mut idx = 0usize;
    assert_eq!(show(&[try_get_seq_ident(&mut idx, &tokens, &target, 7).unwrap()]), "7");
    assert_eq!(idx, 0);
}

#[test]
fn seq_range_split_law() {
    // expanding 0..4 is expanding 0..2 then 2..4
    let whole = tokens_of(macro_workshop::seq::seq(&lex("N in 0..4 { v#N#, }")));
    let a = tokens_of(macro_workshop::seq::seq(&lex("N in 0..2 { v#N#, }")));
    let b = tokens_of(macro_workshop::seq::seq(&lex("N in 2..4 { v#N#, }")));
    assert_eq!(show(&whole), format!("{} {}", show(&a), show(&b)));
}

#[test]
fn seq_untouched_body_law() {
    let out = tokens_of(macro_workshop::seq::seq(&lex("N in 0..3 { a (b) }")));
    assert_eq!(show(&out), "a ( b ) a ( b ) a ( b )");
}

// ---------------------------------------------------------------------------
// decimal
// ---------------------------------------------------------------------------

fn chars(s: &str) -> Vec<char> {
    s.chars().collect()
}

#[test]
fn decimal_text_of_numbers() {
    assert_eq!(text(&i64_text(0)), "0");
    assert_eq!(text(&i64_text(-17)), "-17");
    assert_eq!(text(&i64_text(i64::MIN)), "-9223372036854775808");
    assert_eq!(text(&i64_text(i64::MAX)), "9223372036854775807");
}

#[test]
fn decimal_parse_like_str_parse() {
    for s in ["", "-", "+", "+5", "-5", "12a", "007", "9223372036854775807", "9223372036854775808",
        "-9223372036854775808", "-9223372036854775809", "99999999999999999999x", "x1"]
    {
        let mine = parse_i64(&chars(s));
        let std = s.parse::<i64>();
        match (mine, std) {
            (Ok(a), Ok(b)) => assert_eq!(a, b),
            (Err(e), Err(f)) => {
                let kind = match e {
                    IntError::Empty => std::num::IntErrorKind::Empty,
                    IntError::InvalidDigit => std::num::IntErrorKind::InvalidDigit,
                    IntError::PosOverflow => std::num::IntErrorKind::PosOverflow,
                    IntError::NegOverflow => std::num::IntErrorKind::NegOverflow,
                };
                assert_eq!(&kind, f.kind(), "on {:?}", s);
            }
            (a, b) => panic!("{:?}: {:?} vs {:?}", s, a, b),
        }
    }
}

#[test]
fn decimal_round_trip_law() {
    for i in [0i64, 1, 9, 10, -1, -10, 12345, i64::MAX, i64::MIN] {
        assert_eq!(parse_i64(&i64_text(i)), Ok(i));
    }
}

// ---------------------------------------------------------------------------
// models of syntax
// ---------------------------------------------------------------------------

fn path_ty(src: &str) -> Ty {
    let ty: syn::Type = syn::parse_str(src).unwrap();
    ty_model(&ty)
}

fn ty_model(ty: &syn::Type) -> Ty {
    let tokens = lex(&quote::ToTokens::to_token_stream(ty).to_string());
    match ty {
        syn::Type::Path(p) => Ty::Path {
            segments: p
                .path
                .segments
                .iter()
                .map(|s| PathSegment {
                    ident: ident_of(&s.ident),
                    arguments: match &s.arguments {
                        syn::PathArguments::None => PathArguments::NoArgs,
                        syn::PathArguments::AngleBracketed(a) => PathArguments::AngleBracketed(
                            a.args
                                .iter()
                                .map(|g| match g {
                                    syn::GenericArgument::Type(t) => {
                                        GenericArgument::Type(ty_model(t))
                                    }
                                    _ => GenericArgument::Other,
                                })
                                .collect(),
                        ),
                        syn::PathArguments::Parenthesized(_) => PathArguments::Parenthesized,
                    },
                })
                .collect(),
            tokens,
        },
        _ => Ty::Other { tokens },
    }
}

fn ident_of(i: &proc_macro2::Ident) -> Ident {
    let t = i.to_string();
    match t.strip_prefix("r#") {
        Some(r) => Ident { raw: true, name: r.chars().collect(), span: Span::CallSite },
        None => Ident { raw: false, name: t.chars().collect(), span: Span::CallSite },
    }
}

fn meta_path(s: &str) -> MetaPath {
    MetaPath {
        leading_colon: false,
        segments: vec![MetaPathSegment { ident: word(s), has_arguments: false }],
    }
}

fn str_lit(s: &str) -> Lit {
    Lit::Str { value: s.chars().collect(), span: Span::CallSite }
}

fn name_value_attr(path: &str, value: &str) -> Attribute {
    Attribute {
        path_last: Some(word(path)),
        meta: Some(Meta::NameValue { path: meta_path(path), lit: str_lit(value) }),
    }
}

fn list_attr(path: &str, key: &str, value: &str, id: u64) -> Attribute {
    Attribute {
        path_last: Some(word(path)),
        meta: Some(Meta::List {
            path: meta_path(path),
            nested: vec![NestedMeta::Meta(Meta::NameValue { path: meta_path(key), lit: str_lit(value) })],
            start: source_span(id),
            end: source_span(id + 1),
        }),
    }
}

fn field(name: &str, ty: &str, attrs: Vec<Attribute>) -> Field {
    Field { attrs, ident: word(name), ty: path_ty(ty) }
}

fn struct_input(name: &str, params: Vec<GenericParam>, attrs: Vec<Attribute>, fields: Vec<Field>) -> DeriveInput {
    DeriveInput {
        attrs,
        ident: word(name),
        generics: Generics { params, params_trailing: false, predicates: vec![], where_trailing: false },
        data: Data::Struct(Fields::Named(fields)),
    }
}

// ---------------------------------------------------------------------------
// #[derive(Builder)]
// ---------------------------------------------------------------------------

fn command() -> DeriveInput {
    struct_input(
        "Command",
        vec![],
        vec![],
        vec![
            field("executable", "String", vec![]),
            field("args", "Vec<String>", vec![list_attr("builder", "each", "arg", 10)]),
            field("current_dir", "Option<String>", vec![]),
        ],
    )
}

#[test]
fn builder_generates_the_builder() {
    let out = tokens_of(builder_derive(&command()));
    let expected = [
        "pub struct CommandBuilder { ",
        "executable : std :: option :: Option < String > , ",
        "args : Vec < String > , ",
        "current_dir : Option < String > } ",
        "impl Command { pub fn builder ( ) -> CommandBuilder { CommandBuilder { ",
        "executable : std :: option :: Option :: None , ",
        "args : < Vec < String > > :: new ( ) , ",
        "current_dir : std :: option :: Option :: None } } } ",
        "impl CommandBuilder { ",
        "fn executable ( & mut self , executable : String ) -> & mut Self { self . executable = std :: option :: Option :: Some ( executable ) ; self } ",
        "fn arg ( & mut self , arg : String ) -> & mut Self { self . args . push ( arg ) ; self } ",
        "fn current_dir ( & mut self , current_dir : String ) -> & mut Self { self . current_dir = std :: option :: Option :: Some ( current_dir ) ; self } ",
        "fn build ( & mut self ) -> std :: result :: Result < Command , std :: boxed :: Box < dyn std :: error :: Error >> { ",
        "if let std :: option :: Option :: None = self . executable { return std :: result :: Result :: Err ( \"Field executable is missing\" . into ( ) ) } ",
        "std :: result :: Result :: Ok ( Command { ",
        "executable : self . executable . clone ( ) . unwrap ( ) , ",
        "args : self . args . clone ( ) , ",
        "current_dir : self . current_dir . clone ( ) } ) } }",
    ]
    .concat();
    assert_eq!(show(&out), expected);
}

#[test]
fn builder_rejects_a_misspelled_each() {
    let mut input = command();
    if let Data::Struct(Fields::Named(fields)) = &mut input.data {
        fields[1].attrs = vec![list_attr("builder", "eac", "arg", 20)];
    }
    let e = error_of(builder_do_derive(&input));
    assert_eq!(text(&e.message), "expected `builder(each = \"...\")`");
    assert_eq!(e.start, source_span(20));
    assert_eq!(e.end, source_span(21));
    let out = tokens_of(builder_derive(&input));
    assert_eq!(show(&out), "compile_error ! { \"expected `builder(each = \\\"...\\\")`\" }");
}

#[test]
fn builder_panics_on_an_enum() {
    let input = DeriveInput {
        attrs: vec![],
        ident: word("E"),
        generics: Generics { params: vec![], params_trailing: false, predicates: vec![], where_trailing: false },
        data: Data::Enum,
    };
    assert!(matches!(builder_derive(&input), Expansion::Panic));
    assert!(derive_get_struct_fields(&input).is_none());
}

#[test]
fn builder_panics_on_an_each_field_that_is_not_a_vec() {
    let input = struct_input(
        "S",
        vec![],
        vec![],
        vec![field("items", "HashSet<u8>", vec![list_attr("builder", "each", "item", 1)])],
    );
    assert!(matches!(builder_derive(&input), Expansion::Panic));
}

#[test]
fn builder_panics_on_empty_option_brackets() {
    let mut f = field("x", "Option<u8>", vec![]);
    if let Ty::Path { segments, .. } = &mut f.ty {
        segments[0].arguments = PathArguments::AngleBracketed(vec![]);
    }
    let input = struct_input("S", vec![], vec![], vec![f]);
    assert!(matches!(builder_derive(&input), Expansion::Panic));
}

#[test]
fn builder_field_helpers() {
    let f = field("x", "std::option::Option<Vec<u8>>", vec![]);
    assert!(is_field_optional(&f));
    let inner = extract_inner_type(&f, "Option").unwrap();
    assert_eq!(show(match inner {
        Ty::Path { tokens, .. } => tokens,
        Ty::Other { tokens } => tokens,
    }), "Vec < u8 >");
    assert!(extract_inner_type(&f, "Vec").is_none());
    let g = field("y", "u8", vec![]);
    assert!(!is_field_optional(&g));
    assert!(get_each_attr_name(&g).is_none());
    let h = field("z", "Vec<u8>", vec![list_attr("builder", "each", "one", 3)]);
    assert_eq!(text(&get_each_attr_name(&h).unwrap().unwrap()), "one");
}

// ---------------------------------------------------------------------------
// #[derive(CustomDebug)]
// ---------------------------------------------------------------------------

fn type_param(name: &str, bounds: &[&str]) -> GenericParam {
    GenericParam::Type {
        attrs: vec![],
        ident: word(name),
        bounds: bounds.iter().map(|b| lex(b)).collect(),
        bounds_trailing: false,
    }
}

fn lifetime_param(def: &str, lifetime: &str) -> GenericParam {
    GenericParam::Lifetime { def: lex(def), lifetime: lex(lifetime) }
}

/// The struct `Field<T> { marker: PhantomData<T>, string: String, #[debug = "0b{:08b}"] bitmask: u8 }`.
fn field_struct() -> DeriveInput {
    struct_input(
        "Field",
        vec![type_param("T", &[])],
        vec![],
        vec![
            field("marker", "PhantomData<T>", vec![]),
            field("string", "String", vec![]),
            field("bitmask", "u8", vec![name_value_attr("debug", "0b{:08b}")]),
        ],
    )
}

fn split_of(g: &Generics) -> (String, String, String) {
    (show(&impl_generics(g)), show(&ty_generics(g)), show(&where_clause(g)))
}

#[test]
fn debug_phantom_parameter_gets_no_bound() {
    let _example: macro_workshop::Field<u8> = macro_workshop::Field {
        marker: core::marker::PhantomData,
        string: String::new(),
        bitmask: 0,
    };
    let g = inject_trait_bound(&field_struct());
    assert_eq!(split_of(&g), ("< T >".to_string(), "< T >".to_string(), "".to_string()));
}

#[test]
fn debug_generates_the_impl() {
    let out = tokens_of(debug_derive(&field_struct()));
    let expected = [
        "impl < T > std :: fmt :: Debug for Field < T > { ",
        "fn fmt ( & self , f : & mut std :: fmt :: Formatter < '_ > ) -> std :: fmt :: Result { ",
        "f . debug_struct ( \"Field\" ) ",
        ". field ( \"marker\" , & self . marker ) ",
        ". field ( \"string\" , & self . string ) ",
        ". field ( \"bitmask\" , & format_args ! ( \"0b{:08b}\" , & self . bitmask ) ) ",
        ". finish ( ) } }",
    ]
    .concat();
    assert_eq!(show(&out), expected);
}

#[test]
fn debug_bounds_plain_parameters_and_associated_types() {
    let mut input = struct_input(
        "Wrapper",
        vec![lifetime_param("'a", "'a"), type_param("T", &["Trait"]), type_param("U", &["Clone", "Copy"])],
        vec![],
        vec![field("values", "Vec<T::Value>", vec![]), field("u", "U", vec![])],
    );
    input.generics.predicates = vec![lex("U: Default")];
    let g = inject_trait_bound(&input);
    let (ig, tg, wc) = split_of(&g);
    assert_eq!(ig, "< 'a , T : Trait , U : Clone + Copy + std :: fmt :: Debug >");
    assert_eq!(tg, "< 'a , T , U >");
    assert_eq!(wc, "where U : Default , T :: Value : std :: fmt :: Debug");
}

#[test]
fn debug_generics_put_lifetimes_first_and_keep_commas() {
    let mut input = struct_input(
        "Odd",
        vec![type_param("T", &[]), lifetime_param("'a : 'static", "'a")],
        vec![],
        vec![field("t", "T", vec![])],
    );
    let (ig, tg, _) = split_of(&inject_trait_bound(&input));
    assert_eq!(ig, "< 'a : 'static , T : std :: fmt :: Debug , >");
    assert_eq!(tg, "< 'a , T , >");
    input.generics.params_trailing = true;
    input.generics.predicates = vec![lex("T: Clone")];
    input.generics.where_trailing = true;
    let (ig, _, wc) = split_of(&inject_escape_hatch(&input, &chars("T: Send")));
    assert_eq!(ig, "< 'a : 'static , T , >");
    assert_eq!(wc, "where T : Clone , T: Send");
    let (_, _, wc) = split_of(&inject_escape_hatch(&struct_input("E", vec![], vec![], vec![]), &chars("u8: Copy")));
    assert_eq!(wc, "where u8: Copy");
}

#[test]
fn debug_escape_hatch_replaces_the_bounds() {
    let mut input = field_struct();
    input.generics.params = vec![type_param("T", &["Clone"])];
    input.attrs = vec![list_attr("debug", "bound", "T::Value: Debug", 1)];
    assert_eq!(text(&get_struct_escape_hatch(&input).unwrap()), "T::Value: Debug");
    let out = show(&tokens_of(debug_derive(&input)));
    assert!(out.starts_with(
        "impl < T : Clone > std :: fmt :: Debug for Field < T > where T::Value: Debug {"
    ));
    input.attrs = vec![list_attr("debug", "bound", "T::Value Debug", 1)];
    assert!(matches!(debug_derive(&input), Expansion::Panic));
    input.attrs = vec![list_attr("debug", "bound", "T: Foo<{ c\"x\" }>", 1)];
    assert!(matches!(debug_derive(&input), Expansion::Panic));
}

#[test]
fn debug_format_attribute_must_be_last() {
    let f = field("x", "u8", vec![name_value_attr("debug", "{:x}"), name_value_attr("doc", "d")]);
    assert!(get_inert_attribute_of_field(&f).is_none());
    let g = field("x", "u8", vec![name_value_attr("doc", "d"), name_value_attr("debug", "{:x}")]);
    assert_eq!(text(&get_inert_attribute_of_field(&g).unwrap()), "{:x}");
}

#[test]
fn debug_panics_on_a_tuple_struct() {
    let input = DeriveInput {
        attrs: vec![],
        ident: word("T"),
        generics: Generics { params: vec![], params_trailing: false, predicates: vec![], where_trailing: false },
        data: Data::Struct(Fields::Unnamed),
    };
    assert!(matches!(debug_derive(&input), Expansion::Panic));
}

// ---------------------------------------------------------------------------
// #[sorted] and #[sorted::check]
// ---------------------------------------------------------------------------

#[test]
fn sorted_accepts_variants_in_order() {
    let vs = vec![ident_at("Alpha", 1), ident_at("Beta", 2), ident_at("Gamma", 3)];
    assert!(check_sort(&vs).is_ok());
    let item = Item::Enum { variants: vs };
    let tokens = lex("enum E { Alpha, Beta, Gamma }");
    assert_eq!(show(&sorted(&item, &tokens)), show(&tokens));
}

#[test]
fn sorted_reports_the_variant_that_belongs_first() {
    let vs = vec![
        ident_at("Alpha", 1),
        ident_at("Delta", 2),
        ident_at("Gamma", 3),
        ident_at("Beta", 4),
        ident_at("Beta", 5),
    ];
    let e = check_sort(&vs).unwrap_err();
    assert_eq!(text(&e.message), "Beta should sort before Delta");
    assert_eq!(e.start, source_span(4));
}

#[test]
fn sorted_order_is_by_characters() {
    let vs = vec![ident_at("B", 1), ident_at("Ab", 2)];
    assert_eq!(text(&check_sort(&vs).unwrap_err().message), "Ab should sort before B");
    let vs = vec![ident_at("Ab", 1), ident_at("A", 2)];
    assert_eq!(text(&check_sort(&vs).unwrap_err().message), "A should sort before Ab");
    let vs = vec![ident_at("Z", 1), ident_at("a", 2)];
    assert!(check_sort(&vs).is_ok());
    assert!(text_less(&chars("Z"), &chars("a")));
    assert!(!text_less(&chars("a"), &chars("a")));
}

#[test]
fn sorted_one_variant_or_none_is_in_order() {
    assert!(check_sort(&vec![]).is_ok());
    assert!(check_sort(&vec![ident_at("Only", 1)]).is_ok());
}

#[test]
fn sorted_rejects_other_items() {
    let e = do_sort_check(&Item::Other).unwrap_err();
    assert_eq!(text(&e.message), "expected enum or match expression");
    assert_eq!(e.start, Span::CallSite);
    let tokens = lex("struct S;");
    let out = sorted(&Item::Other, &tokens);
    assert_eq!(show(&out), "compile_error ! { \"expected enum or match expression\" } struct S ;");
}

#[test]
fn sorted_misplaced_names() {
    let names = vec![chars("a"), chars("c"), chars("b")];
    assert_eq!(find_misplaced(&names), Some((1, 2)));
    let names = vec![chars("a"), chars("b")];
    assert_eq!(find_misplaced(&names), None);
}

fn arm(path: &[&str], id: u64) -> ArmPat {
    ArmPat::Path {
        segments: path.iter().map(|s| ident_at(s, id)).collect(),
        start: source_span(id),
        end: source_span(id + 1),
    }
}

fn sorted_attr() -> Attribute {
    Attribute { path_last: Some(word("sorted")), meta: Some(Meta::Path(meta_path("sorted"))) }
}

#[test]
fn check_joins_path_segments() {
    let p = vec![word("Error"), word("Io")];
    assert_eq!(text(&join_path_segments(&p)), "Error::Io");
    assert_eq!(text(&join_path_segments(&vec![word("Fmt")])), "Fmt");
    assert_eq!(text(&join_path_segments(&vec![])), "");
}

#[test]
fn check_accepts_sorted_arms_and_removes_the_attribute() {
    let m = MatchExpr {
        attrs: vec![name_value_attr("doc", "x"), sorted_attr()],
        arms: vec![arm(&["Error", "Fmt"], 1), arm(&["Error", "Io"], 3)],
        descendants: 0,
    };
    let (remove, err) = visit_expr_match(&m);
    assert_eq!(remove, Some(1));
    assert!(err.is_none());
    let (errs, plan) = check(&vec![m]);
    assert!(errs.is_empty());
    assert_eq!(plan, vec![Some(1)]);
}

#[test]
fn check_reports_unsorted_arms() {
    let m = MatchExpr {
        attrs: vec![sorted_attr()],
        arms: vec![arm(&["Io"], 1), arm(&["Fmt"], 3)],
        descendants: 0,
    };
    let (res, plan) = do_check_check(&vec![m]);
    let e = res.unwrap_err();
    assert_eq!(text(&e.message), "Fmt should sort before Io");
    assert_eq!(e.start, source_span(3));
    assert_eq!(e.end, source_span(4));
    assert_eq!(plan, vec![Some(0)]);
}

#[test]
fn check_reports_unsupported_patterns() {
    let m = MatchExpr {
        attrs: vec![],
        arms: vec![arm(&["A"], 1), ArmPat::Unsupported { start: source_span(7), end: source_span(8) }],
        descendants: 0,
    };
    let (errs, _) = check(&vec![m]);
    assert_eq!(show(&errs), "compile_error ! { \"unsupported by #[sorted]\" }");
}

#[test]
fn check_skips_inside_a_failing_match_and_keeps_the_last_error() {
    let outer = MatchExpr {
        attrs: vec![sorted_attr()],
        arms: vec![arm(&["B"], 1), arm(&["A"], 3)],
        descendants: 1,
    };
    let inner = MatchExpr {
        attrs: vec![sorted_attr()],
        arms: vec![arm(&["D"], 5), arm(&["C"], 7)],
        descendants: 0,
    };
    let later = MatchExpr {
        attrs: vec![sorted_attr()],
        arms: vec![arm(&["F"], 9), arm(&["E"], 11)],
        descendants: 0,
    };
    let (res, plan) = do_check_check(&vec![outer, inner, later]);
    assert_eq!(text(&res.unwrap_err().message), "E should sort before F");
    assert_eq!(plan, vec![Some(0), None, Some(0)]);
}

// ---------------------------------------------------------------------------
// #[bitfield]
// ---------------------------------------------------------------------------

fn bit_struct(fields: Fields) -> ItemStruct {
    ItemStruct {
        head: lex("pub struct MyFourBytes"),
        where_clause: vec![],
        fields,
        start: source_span(1),
        end: source_span(9),
    }
}

#[test]
fn bitfield_replaces_the_fields_by_bytes() {
    let st = bit_struct(Fields::Named(vec![
        field("a", "B1", vec![]),
        field("b", "B3", vec![]),
        field("c", "B4", vec![]),
    ]));
    assert_eq!(get_struct_fields(&st).unwrap().len(), 3);
    let expr = generate_total_bitwidth_devide_by_8_expression(&st).unwrap();
    assert_eq!(
        show(&expr),
        "( < B1 as Specifier > :: BITS + < B3 as Specifier > :: BITS + < B4 as Specifier > :: BITS ) / 8"
    );
    let out = generate_real_struct(&st).unwrap();
    assert_eq!(
        show(&out),
        "pub struct MyFourBytes { data : [ u8 ; ( < B1 as Specifier > :: BITS + < B3 as Specifier > :: BITS + < B4 as Specifier > :: BITS ) / 8 ] , }"
    );
    assert_eq!(show(&bitfield(&st)), show(&out));
}

#[test]
fn bitfield_without_fields() {
    let st = bit_struct(Fields::Named(vec![]));
    assert_eq!(show(&generate_total_bitwidth_devide_by_8_expression(&st).unwrap()), "( ) / 8");
}

#[test]
fn bitfield_rejects_unnamed_fields() {
    let st = bit_struct(Fields::Unnamed);
    let e = get_struct_fields(&st).unwrap_err();
    assert!(e.message.is_empty());
    assert_eq!(e.start, source_span(1));
    assert_eq!(e.end, source_span(9));
    assert_eq!(show(&bitfield(&st)), "compile_error ! { \"\" }");
}

#[test]
fn bitfield_width_enums() {
    let out = define_field_width_enums();
    let s = show(&out);
    assert!(s.starts_with("pub enum B1 { } impl Specifier for B1 { const BITS : usize = 1usize ; }"));
    assert!(s.ends_with("pub enum B64 { } impl Specifier for B64 { const BITS : usize = 64usize ; }"));
    assert!(s.contains("pub enum B17 { } impl Specifier for B17 { const BITS : usize = 17usize ; }"));
    assert_eq!(out.len(), 64 * 18);
}

// ---------------------------------------------------------------------------
// tokens
// ---------------------------------------------------------------------------

#[test]
fn compile_error_tokens_carry_the_spans() {
    let e = CompileError { start: source_span(2), end: source_span(5), message: chars("boom") };
    let out = to_compile_error(&e);
    assert_eq!(show(&out), "compile_error ! { \"boom\" }");
    match (&out[0], &out[2], &out[3]) {
        (TokenTree::Ident(i), TokenTree::Open { span, .. }, TokenTree::Literal { span: ls, .. }) => {
            assert_eq!(i.span, source_span(2));
            assert_eq!(*span, source_span(5));
            assert_eq!(*ls, source_span(5));
        }
        other => panic!("unexpected {:?}", other),
    }
    match render(Expansion::Error(e)) {
        Expansion::Tokens(t) => assert_eq!(show(&t), "compile_error ! { \"boom\" }"),
        other => panic!("unexpected {:?}", other),
    }
}
