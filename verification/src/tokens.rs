//! A flat model of a token stream: every group is written as an opening
//! marker, its contents, and a closing marker.  Text is held as `Vec<char>`.
use vstd::prelude::*;

verus! {

/// A line/column position in the source, as the compiler reports it.
#[derive(Clone, Copy, PartialEq, Eq, Structural, Debug)]
pub struct LineColumn {
    pub line: u64,
    pub column: u64,
}

/// Where a token comes from.
#[derive(Clone, Copy, PartialEq, Eq, Structural, Debug)]
pub enum Span {
    /// The span of the macro invocation itself.
    CallSite,
    /// A span of the macro input; `id` names it in the caller's table of spans.
    Source { id: u64, start: LineColumn, end: LineColumn },
}

/// The delimiter of a group.
#[derive(Clone, Copy, PartialEq, Eq, Structural, Debug)]
pub enum Delimiter {
    Parenthesis,
    Brace,
    Bracket,
    Invisible,
}

/// An identifier; `raw` marks the `r#name` form.
#[derive(Debug)]
pub struct Ident {
    pub raw: bool,
    pub name: Vec<char>,
    pub span: Span,
}

/// How a literal is written.
#[derive(Debug)]
pub enum LitRepr {
    /// A literal of the input, held as its source text.
    Source(Vec<char>),
    /// A string literal holding the given value.
    Str(Vec<char>),
    /// An integer literal without suffix.
    Int(i64),
    /// An integer literal with the `usize` suffix.
    Usize(u64),
}

/// One token of a flat token stream.
#[derive(Debug)]
pub enum TokenTree {
    /// Opens a group; `span` covers the whole group, `span_open` its opening delimiter.
    Open { delim: Delimiter, span: Span, span_open: Span },
    /// Closes the innermost open group.
    Close { delim: Delimiter },
    Ident(Ident),
    /// A punctuation character; `joint` when it is glued to the next punctuation.
    Punct { ch: char, joint: bool, span: Span },
    Literal { repr: LitRepr, span: Span },
    /// Tokens written as source text, lexed at the call site when the
    /// output is handed to the compiler.
    Verbatim { text: Vec<char> },
}

/// A compile error located between two spans.
#[derive(Debug)]
pub struct CompileError {
    pub start: Span,
    pub end: Span,
    pub message: Vec<char>,
}

/// The mathematical value of an identifier.
pub struct IdentV {
    pub raw: bool,
    pub name: Seq<char>,
    pub span: Span,
}

/// The mathematical value of a literal.
pub enum LitV {
    Source(Seq<char>),
    Str(Seq<char>),
    Int(i64),
    Usize(u64),
}

/// The mathematical value of a token.
pub enum Tok {
    Open { delim: Delimiter, span: Span, span_open: Span },
    Close { delim: Delimiter },
    Ident(IdentV),
    Punct { ch: char, joint: bool, span: Span },
    Literal { lit: LitV, span: Span },
    Verbatim { text: Seq<char> },
}

/// The mathematical value of a compile error.
pub struct ErrorV {
    pub start: Span,
    pub end: Span,
    pub message: Seq<char>,
}

impl View for Ident {
    type V = IdentV;

    open spec fn view(&self) -> IdentV {
        IdentV { raw: self.raw, name: self.name@, span: self.span }
    }
}

impl View for LitRepr {
    type V = LitV;

    open spec fn view(&self) -> LitV {
        match self {
            LitRepr::Source(t) => LitV::Source(t@),
            LitRepr::Str(t) => LitV::Str(t@),
            LitRepr::Int(v) => LitV::Int(*v),
            LitRepr::Usize(v) => LitV::Usize(*v),
        }
    }
}

impl View for TokenTree {
    type V = Tok;

    open spec fn view(&self) -> Tok {
        match self {
            TokenTree::Open { delim, span, span_open } => Tok::Open {
                delim: *delim,
                span: *span,
                span_open: *span_open,
            },
            TokenTree::Close { delim } => Tok::Close { delim: *delim },
            TokenTree::Ident(i) => Tok::Ident(i@),
            TokenTree::Punct { ch, joint, span } => Tok::Punct { ch: *ch, joint: *joint, span: *span },
            TokenTree::Literal { repr, span } => Tok::Literal { lit: repr@, span: *span },
            TokenTree::Verbatim { text } => Tok::Verbatim { text: text@ },
        }
    }
}

impl View for CompileError {
    type V = ErrorV;

    open spec fn view(&self) -> ErrorV {
        ErrorV { start: self.start, end: self.end, message: self.message@ }
    }
}

/// The tokens that a sequence of token trees stands for.
pub open spec fn toks(s: Seq<TokenTree>) -> Seq<Tok> {
    Seq::new(s.len(), |i: int| s[i]@)
}

/// The text of an identifier as it is displayed (`r#` in front of a raw one).
pub open spec fn ident_text(i: IdentV) -> Seq<char> {
    if i.raw {
        seq!['r', '#'] + i.name
    } else {
        i.name
    }
}

/// An identifier made from `text` the way `format_ident!` makes one: a leading
/// `r#` makes it raw.
pub open spec fn ident_from_text(text: Seq<char>, span: Span) -> IdentV {
    if text.len() >= 2 && text[0] == 'r' && text[1] == '#' {
        IdentV { raw: true, name: text.skip(2), span }
    } else {
        IdentV { raw: false, name: text, span }
    }
}

/// A plain identifier token at the call site.
pub open spec fn word(s: Seq<char>) -> Tok {
    Tok::Ident(IdentV { raw: false, name: s, span: Span::CallSite })
}

/// A lone punctuation token at the call site.
pub open spec fn punct(c: char) -> Tok {
    Tok::Punct { ch: c, joint: false, span: Span::CallSite }
}

/// A punctuation token glued to the next one, at the call site.
pub open spec fn joint(c: char) -> Tok {
    Tok::Punct { ch: c, joint: true, span: Span::CallSite }
}

/// The two tokens of `::`.
pub open spec fn path_sep() -> Seq<Tok> {
    seq![joint(':'), punct(':')]
}

/// The opening marker of a group built at the call site.
pub open spec fn open(d: Delimiter) -> Tok {
    Tok::Open { delim: d, span: Span::CallSite, span_open: Span::CallSite }
}

/// The closing marker of a group.
pub open spec fn close(d: Delimiter) -> Tok {
    Tok::Close { delim: d }
}

/// `toks(s)` wrapped in a group built at the call site.
pub open spec fn group(d: Delimiter, s: Seq<Tok>) -> Seq<Tok> {
    seq![open(d)] + s + seq![close(d)]
}

/// The parts one after the other, with a `,` between two parts.
pub open spec fn join_commas(parts: Seq<Seq<Tok>>) -> Seq<Tok>
    decreases parts.len(),
{
    if parts.len() == 0 {
        seq![]
    } else if parts.len() == 1 {
        parts[0]
    } else {
        join_commas(parts.drop_last()) + seq![punct(',')] + parts.last()
    }
}

/// The parts one after the other.
pub open spec fn concat(parts: Seq<Seq<Tok>>) -> Seq<Tok>
    decreases parts.len(),
{
    if parts.len() == 0 {
        seq![]
    } else {
        concat(parts.drop_last()) + parts.last()
    }
}

/// `join_commas` over one more part.
pub proof fn lemma_join_commas_push(parts: Seq<Seq<Tok>>, i: int)
    requires
        0 <= i < parts.len(),
    ensures
        join_commas(parts.take(i + 1)) == if i == 0 {
            parts[0]
        } else {
            join_commas(parts.take(i)) + seq![punct(',')] + parts[i]
        },
{
    assert(parts.take(i + 1).drop_last() =~= parts.take(i));
}

/// `concat` over one more part.
pub proof fn lemma_concat_push(parts: Seq<Seq<Tok>>, i: int)
    requires
        0 <= i < parts.len(),
    ensures
        concat(parts.take(i + 1)) == concat(parts.take(i)) + parts[i],
{
    assert(parts.take(i + 1).drop_last() =~= parts.take(i));
}

/// A string literal token at the call site.
pub open spec fn str_lit(s: Seq<char>) -> Tok {
    Tok::Literal { lit: LitV::Str(s), span: Span::CallSite }
}

/// The characters of a string slice.
pub fn text_of(s: &str) -> (v: Vec<char>)
    ensures
        v@ == s@,
{
    let n = s.unicode_len();
    let mut v: Vec<char> = Vec::new();
    let mut i: usize = 0;
    while i < n
        invariant
            n == s@.len(),
            i <= n,
            v@ == s@.subrange(0, i as int),
        decreases n - i,
    {
        let c = s.get_char(i);
        v.push(c);
        i = i + 1;
        assert(v@ =~= s@.subrange(0, i as int));
    }
    assert(v@ =~= s@);
    v
}

/// A copy of a text.
pub fn copy_text(t: &Vec<char>) -> (v: Vec<char>)
    ensures
        v@ == t@,
{
    let mut v: Vec<char> = Vec::new();
    let mut i: usize = 0;
    while i < t.len()
        invariant
            i <= t.len(),
            v@ == t@.subrange(0, i as int),
        decreases t.len() - i,
    {
        v.push(t[i]);
        i = i + 1;
        assert(v@ =~= t@.subrange(0, i as int));
    }
    assert(v@ =~= t@);
    v
}

/// Appends the characters of `b` to `a`.
pub fn append_text(a: &mut Vec<char>, b: &Vec<char>)
    ensures
        final(a)@ == old(a)@ + b@,
{
    let mut i: usize = 0;
    while i < b.len()
        invariant
            i <= b.len(),
            a@ == old(a)@ + b@.subrange(0, i as int),
        decreases b.len() - i,
    {
        a.push(b[i]);
        i = i + 1;
        assert(a@ =~= old(a)@ + b@.subrange(0, i as int));
    }
    assert(b@.subrange(0, b@.len() as int) =~= b@);
}

/// Appends the characters of `s` to `a`.
pub fn append_str(a: &mut Vec<char>, s: &str)
    ensures
        final(a)@ == old(a)@ + s@,
{
    let t = text_of(s);
    append_text(a, &t);
}

/// Whether two texts are equal.
pub fn text_eq(a: &Vec<char>, b: &Vec<char>) -> (r: bool)
    ensures
        r == (a@ == b@),
{
    if a.len() != b.len() {
        return false;
    }
    let mut i: usize = 0;
    while i < a.len()
        invariant
            a.len() == b.len(),
            i <= a.len(),
            forall|j: int| 0 <= j < i ==> a@[j] == b@[j],
        decreases a.len() - i,
    {
        if a[i] != b[i] {
            return false;
        }
        i = i + 1;
    }
    assert(a@ =~= b@);
    true
}

/// Whether a text equals a string slice.
pub fn text_eq_str(a: &Vec<char>, s: &str) -> (r: bool)
    ensures
        r == (a@ == s@),
{
    let t = text_of(s);
    text_eq(a, &t)
}

impl Ident {
    /// A copy of this identifier.
    pub fn copy(&self) -> (r: Ident)
        ensures
            r@ == self@,
    {
        Ident { raw: self.raw, name: copy_text(&self.name), span: self.span }
    }

    /// The text of this identifier as it is displayed.
    pub fn text(&self) -> (r: Vec<char>)
        ensures
            r@ == ident_text(self@),
    {
        if self.raw {
            let mut r = text_of("r#");
            append_text(&mut r, &self.name);
            proof {
                reveal_strlit("r#");
                assert(r@ =~= seq!['r', '#'] + self.name@);
            }
            r
        } else {
            copy_text(&self.name)
        }
    }

    /// Whether this identifier displays as `s`.
    pub fn is(&self, s: &str) -> (r: bool)
        ensures
            r == (ident_text(self@) == s@),
    {
        let t = self.text();
        text_eq_str(&t, s)
    }

    /// The identifier that `format_ident!` makes from `text`.
    pub fn from_text(text: Vec<char>, span: Span) -> (r: Ident)
        ensures
            r@ == ident_from_text(text@, span),
    {
        if text.len() >= 2 && text[0] == 'r' && text[1] == '#' {
            let mut name: Vec<char> = Vec::new();
            let mut i: usize = 2;
            while i < text.len()
                invariant
                    2 <= i <= text.len(),
                    name@ == text@.subrange(2, i as int),
                decreases text.len() - i,
            {
                name.push(text[i]);
                i = i + 1;
                assert(name@ =~= text@.subrange(2, i as int));
            }
            assert(name@ =~= text@.skip(2));
            Ident { raw: true, name, span }
        } else {
            Ident { raw: false, name: text, span }
        }
    }
}

impl LitRepr {
    /// A copy of this literal.
    pub fn copy(&self) -> (r: LitRepr)
        ensures
            r@ == self@,
    {
        match self {
            LitRepr::Source(t) => LitRepr::Source(copy_text(t)),
            LitRepr::Str(t) => LitRepr::Str(copy_text(t)),
            LitRepr::Int(v) => LitRepr::Int(*v),
            LitRepr::Usize(v) => LitRepr::Usize(*v),
        }
    }
}

impl TokenTree {
    /// A copy of this token.
    pub fn copy(&self) -> (r: TokenTree)
        ensures
            r@ == self@,
    {
        match self {
            TokenTree::Open { delim, span, span_open } => TokenTree::Open {
                delim: *delim,
                span: *span,
                span_open: *span_open,
            },
            TokenTree::Close { delim } => TokenTree::Close { delim: *delim },
            TokenTree::Ident(i) => TokenTree::Ident(i.copy()),
            TokenTree::Punct { ch, joint, span } => TokenTree::Punct {
                ch: *ch,
                joint: *joint,
                span: *span,
            },
            TokenTree::Literal { repr, span } => TokenTree::Literal { repr: repr.copy(), span: *span },
            TokenTree::Verbatim { text } => TokenTree::Verbatim { text: copy_text(text) },
        }
    }
}

/// Appends one token.
pub fn push_token(out: &mut Vec<TokenTree>, t: TokenTree)
    ensures
        toks(final(out)@) == toks(old(out)@).push(t@),
{
    out.push(t);
    assert(toks(out@) =~= toks(old(out)@).push(t@));
}

/// Appends copies of the tokens of `src`.
pub fn extend_tokens(out: &mut Vec<TokenTree>, src: &Vec<TokenTree>)
    ensures
        toks(final(out)@) == toks(old(out)@) + toks(src@),
{
    let mut i: usize = 0;
    while i < src.len()
        invariant
            i <= src.len(),
            toks(out@) == toks(old(out)@) + toks(src@.subrange(0, i as int)),
        decreases src.len() - i,
    {
        let t = src[i].copy();
        push_token(out, t);
        i = i + 1;
        assert(toks(out@) =~= toks(old(out)@) + toks(src@.subrange(0, i as int)));
    }
    assert(src@.subrange(0, src@.len() as int) =~= src@);
}

/// Appends an identifier token at the call site.
pub fn push_word(out: &mut Vec<TokenTree>, s: &str)
    ensures
        toks(final(out)@) == toks(old(out)@).push(word(s@)),
{
    let name = text_of(s);
    push_token(out, TokenTree::Ident(Ident { raw: false, name, span: Span::CallSite }));
}

/// Appends a copy of an identifier.
pub fn push_ident(out: &mut Vec<TokenTree>, i: &Ident)
    ensures
        toks(final(out)@) == toks(old(out)@).push(Tok::Ident(i@)),
{
    push_token(out, TokenTree::Ident(i.copy()));
}

/// Appends a punctuation token at the call site.
pub fn push_punct(out: &mut Vec<TokenTree>, ch: char, joint: bool)
    ensures
        toks(final(out)@) == toks(old(out)@).push(
            Tok::Punct { ch, joint, span: Span::CallSite },
        ),
{
    push_token(out, TokenTree::Punct { ch, joint, span: Span::CallSite });
}

/// Appends `::`.
pub fn push_path_sep(out: &mut Vec<TokenTree>)
    ensures
        toks(final(out)@) == toks(old(out)@) + path_sep(),
{
    push_punct(out, ':', true);
    push_punct(out, ':', false);
    assert(toks(out@) =~= toks(old(out)@) + path_sep());
}

/// Appends the opening marker of a group built at the call site.
pub fn push_open(out: &mut Vec<TokenTree>, d: Delimiter)
    ensures
        toks(final(out)@) == toks(old(out)@).push(open(d)),
{
    push_token(out, TokenTree::Open { delim: d, span: Span::CallSite, span_open: Span::CallSite });
}

/// Appends the closing marker of a group.
pub fn push_close(out: &mut Vec<TokenTree>, d: Delimiter)
    ensures
        toks(final(out)@) == toks(old(out)@).push(close(d)),
{
    push_token(out, TokenTree::Close { delim: d });
}

/// Appends a string literal token at the call site.
pub fn push_str_lit(out: &mut Vec<TokenTree>, value: Vec<char>)
    ensures
        toks(final(out)@) == toks(old(out)@).push(str_lit(value@)),
{
    push_token(out, TokenTree::Literal { repr: LitRepr::Str(value), span: Span::CallSite });
}

/// `std::mid::last`
pub open spec fn std_path(mid: Seq<char>, last: Seq<char>) -> Seq<Tok> {
    seq![word("std"@), joint(':'), punct(':'), word(mid), joint(':'), punct(':'), word(last)]
}

/// `()`
pub open spec fn empty_parens() -> Seq<Tok> {
    group(Delimiter::Parenthesis, seq![])
}

/// `-> `
pub open spec fn arrow() -> Seq<Tok> {
    seq![joint('-'), punct('>')]
}

/// Appends `std::mid::last`.
pub fn emit_std_path(out: &mut Vec<TokenTree>, mid: &str, last: &str)
    ensures
        toks(final(out)@) == toks(old(out)@) + std_path(mid@, last@),
{
    let ghost o = toks(out@);
    push_word(out, "std");
    push_path_sep(out);
    push_word(out, mid);
    push_path_sep(out);
    push_word(out, last);
    assert(toks(out@) =~= o + std_path(mid@, last@));
}

/// Appends `()`.
pub fn emit_empty_parens(out: &mut Vec<TokenTree>)
    ensures
        toks(final(out)@) == toks(old(out)@) + empty_parens(),
{
    let ghost o = toks(out@);
    push_open(out, Delimiter::Parenthesis);
    push_close(out, Delimiter::Parenthesis);
    assert(toks(out@) =~= o + empty_parens());
}

/// Appends `->`.
pub fn emit_arrow(out: &mut Vec<TokenTree>)
    ensures
        toks(final(out)@) == toks(old(out)@) + arrow(),
{
    let ghost o = toks(out@);
    push_punct(out, '-', true);
    push_punct(out, '>', false);
    assert(toks(out@) =~= o + arrow());
}

/// `compile_error! { "message" }` at the spans of an error: the name and
/// `!` at its start, the braces and the message at its end.
pub open spec fn compile_error_tokens(e: ErrorV) -> Seq<Tok> {
    seq![
        Tok::Ident(IdentV { raw: false, name: "compile_error"@, span: e.start }),
        Tok::Punct { ch: '!', joint: false, span: e.start },
        Tok::Open { delim: Delimiter::Brace, span: e.end, span_open: e.end },
        Tok::Literal { lit: LitV::Str(e.message), span: e.end },
        Tok::Close { delim: Delimiter::Brace },
    ]
}

/// The tokens that report an error to the compiler.
pub fn to_compile_error(e: &CompileError) -> (r: Vec<TokenTree>)
    ensures
        toks(r@) == compile_error_tokens(e@),
{
    let mut r: Vec<TokenTree> = Vec::new();
    push_token(&mut r, TokenTree::Ident(Ident { raw: false, name: text_of("compile_error"), span: e.start }));
    push_token(&mut r, TokenTree::Punct { ch: '!', joint: false, span: e.start });
    push_token(&mut r, TokenTree::Open { delim: Delimiter::Brace, span: e.end, span_open: e.end });
    push_token(&mut r, TokenTree::Literal { repr: LitRepr::Str(copy_text(&e.message)), span: e.end });
    push_token(&mut r, TokenTree::Close { delim: Delimiter::Brace });
    assert(toks(r@) =~= compile_error_tokens(e@));
    r
}

/// The tokens of an item, after the error that a check of it found, if any.
pub open spec fn with_error_tokens(res: Result<(), ErrorV>, item: Seq<Tok>) -> Seq<Tok> {
    match res {
        Ok(()) => item,
        Err(e) => compile_error_tokens(e) + item,
    }
}

/// The error view of a check's result.
pub open spec fn unit_result(r: Result<(), CompileError>) -> Result<(), ErrorV> {
    match r {
        Ok(()) => Ok(()),
        Err(e) => Err(e@),
    }
}

/// The item's tokens, after the error of a failed check.
pub fn with_error(res: &Result<(), CompileError>, item: &Vec<TokenTree>) -> (r: Vec<TokenTree>)
    ensures
        toks(r@) == with_error_tokens(unit_result(*res), toks(item@)),
{
    let mut out = match res {
        Ok(()) => Vec::new(),
        Err(e) => to_compile_error(e),
    };
    let ghost o = toks(out@);
    extend_tokens(&mut out, item);
    assert(toks(out@) =~= with_error_tokens(unit_result(*res), toks(item@)));
    out
}

/// What a macro makes of its input: tokens, a compile error, or a panic.
#[derive(Debug)]
pub enum Expansion {
    Tokens(Vec<TokenTree>),
    Error(CompileError),
    Panic,
}

/// The mathematical value of an `Expansion`.
pub enum ExpansionV {
    Tokens(Seq<Tok>),
    Error(ErrorV),
    Panic,
}

impl View for Expansion {
    type V = ExpansionV;

    open spec fn view(&self) -> ExpansionV {
        match self {
            Expansion::Tokens(t) => ExpansionV::Tokens(toks(t@)),
            Expansion::Error(e) => ExpansionV::Error(e@),
            Expansion::Panic => ExpansionV::Panic,
        }
    }
}

/// An expansion with its error, if any, written out as `compile_error!`.
pub open spec fn rendered(x: ExpansionV) -> ExpansionV {
    match x {
        ExpansionV::Error(e) => ExpansionV::Tokens(compile_error_tokens(e)),
        _ => x,
    }
}

/// Writes out the error of an expansion, if any, as `compile_error!`.
pub fn render(x: Expansion) -> (r: Expansion)
    ensures
        r@ == rendered(x@),
{
    match x {
        Expansion::Error(e) => Expansion::Tokens(to_compile_error(&e)),
        other => other,
    }
}

} // verus!
