//! `seq!(N in 0..8 { ... })`: repeats a body once per number of a range,
//! with the identifier `N` replaced by the number and `prefix#N` (or
//! `prefix#N#suffix`) pasted into one identifier.
use vstd::prelude::*;
use crate::tokens::{
    append_text, extend_tokens, ident_text, open, push_open, push_token, text_eq,
    text_of, toks, CompileError, Delimiter, ErrorV, Ident, IdentV, LitRepr, LitV, Span, Tok,
    TokenTree, Expansion, ExpansionV, render, rendered,
};
use crate::decimal::{decimal, i64_text, int_error_message, int_error_text, parse_i64, parse_i64_spec};

verus! {

/// The parsed header and body of a `seq!` invocation.
#[derive(Debug)]
pub struct SeqDef {
    pub ident: Ident,
    pub start_num: i64,
    pub stop_num: i64,
    pub body: Vec<TokenTree>,
}

/// The mathematical value of a `SeqDef`.
pub struct SeqDefV {
    pub ident: IdentV,
    pub start_num: i64,
    pub stop_num: i64,
    pub body: Seq<Tok>,
}

impl View for SeqDef {
    type V = SeqDefV;

    open spec fn view(&self) -> SeqDefV {
        SeqDefV {
            ident: self.ident@,
            start_num: self.start_num,
            stop_num: self.stop_num,
            body: toks(self.body@),
        }
    }
}

// ---------------------------------------------------------------------------
// Expansion of the body
// ---------------------------------------------------------------------------

/// Position `k` ends the current group level: the group closes there or the
/// stream ends.
pub open spec fn is_boundary(b: Seq<Tok>, k: int) -> bool {
    k >= b.len() || b[k] is Close
}

pub open spec fn is_punct_char(t: Tok, c: char) -> bool {
    t matches Tok::Punct { ch, .. } && ch == c
}

pub open spec fn is_ident_text(t: Tok, s: Seq<char>) -> bool {
    t matches Tok::Ident(x) && ident_text(x) == s
}

/// The span of a punctuation token.
pub open spec fn punct_span(t: Tok) -> Span {
    match t {
        Tok::Punct { span, .. } => span,
        _ => Span::CallSite,
    }
}

/// `z` starts exactly where `p` ends.
pub open spec fn adjacent(p: Span, z: Span) -> bool {
    match (p, z) {
        (Span::Source { end, .. }, Span::Source { start, .. }) => end == start,
        _ => false,
    }
}

/// `b[k]` is an identifier followed by `# target` (the pasting forms).
pub open spec fn pastes(b: Seq<Tok>, k: int, target: Seq<char>) -> bool {
    &&& 0 <= k
    &&& k + 2 < b.len()
    &&& is_punct_char(b[k + 1], '#')
    &&& is_ident_text(b[k + 2], target)
}

/// Expanding the identifier at `k` indexes past the end of its group: the
/// group ends right after `x # target` or right after `x # target #`.
pub open spec fn ident_panics(b: Seq<Tok>, k: int, target: Seq<char>) -> bool {
    &&& b[k] matches Tok::Ident(x)
    &&& ident_text(x) != target
    &&& pastes(b, k, target)
    &&& (is_boundary(b, k + 3) || (is_punct_char(b[k + 3], '#') && is_boundary(b, k + 4)))
}

/// The identifier pasted at `k` for the number `i` is not a valid
/// identifier, on which making it panics: the number is negative, or a
/// pasted part is a raw identifier (its text starts with `r#`).
pub open spec fn paste_invalid(b: Seq<Tok>, k: int, target: Seq<char>, i: i64) -> bool {
    let n = ident_match(b, k, target);
    &&& n >= 4
    &&& (i < 0 || b[k]->Ident_0.raw || (n == 5 && b[k + 4]->Ident_0.raw))
}

/// How many tokens the identifier at `k` is replaced from: 1 when it is the
/// target, 5 for `x # target # y` with `y` glued to the second `#`, 4 for
/// `x # target #` otherwise, 0 when it is copied.
pub open spec fn ident_match(b: Seq<Tok>, k: int, target: Seq<char>) -> nat {
    if !(0 <= k < b.len() && b[k] is Ident) {
        0
    } else if ident_text(b[k]->Ident_0) == target {
        1
    } else if pastes(b, k, target) && !is_boundary(b, k + 3) && is_punct_char(b[k + 3], '#')
        && !is_boundary(b, k + 4) {
        if b[k + 4] matches Tok::Ident(z) && adjacent(punct_span(b[k + 3]), z.span) {
            5
        } else {
            4
        }
    } else {
        0
    }
}

/// The token that replaces the identifier at `k` for the number `i`.
pub open spec fn replacement(b: Seq<Tok>, k: int, target: Seq<char>, i: i64) -> Tok {
    let n = ident_match(b, k, target);
    if n == 1 {
        Tok::Literal { lit: LitV::Int(i), span: Span::CallSite }
    } else if n == 5 {
        Tok::Ident(
            IdentV {
                raw: false,
                name: ident_text(b[k]->Ident_0) + decimal(i as int) + ident_text(
                    b[k + 4]->Ident_0,
                ),
                span: punct_span(b[k + 3]),
            },
        )
    } else {
        Tok::Ident(
            IdentV {
                raw: false,
                name: ident_text(b[k]->Ident_0) + decimal(i as int),
                span: punct_span(b[k + 3]),
            },
        )
    }
}

/// The tokens that expanding `b` from position `k` produces for the number `i`.
/// Every group is rebuilt at the call site.
pub open spec fn expand_from(b: Seq<Tok>, target: Seq<char>, i: i64, k: int) -> Seq<Tok>
    decreases b.len() - k,
{
    if k < 0 || k >= b.len() {
        seq![]
    } else if b[k] is Open {
        seq![open(b[k]->Open_delim)] + expand_from(b, target, i, k + 1)
    } else if ident_match(b, k, target) > 0 {
        seq![replacement(b, k, target, i)] + expand_from(
            b,
            target,
            i,
            k + ident_match(b, k, target),
        )
    } else {
        seq![b[k]] + expand_from(b, target, i, k + 1)
    }
}

/// Expanding `b` from position `k` for the number `i` never indexes past the
/// end of a group nor pastes an invalid identifier.
pub open spec fn expands_from(b: Seq<Tok>, target: Seq<char>, i: i64, k: int) -> bool
    decreases b.len() - k,
{
    if k < 0 || k >= b.len() {
        true
    } else if b[k] is Ident && (ident_panics(b, k, target) || paste_invalid(b, k, target, i)) {
        false
    } else if ident_match(b, k, target) > 0 {
        expands_from(b, target, i, k + ident_match(b, k, target))
    } else {
        expands_from(b, target, i, k + 1)
    }
}

/// What expands for a number expands for every larger one.
pub proof fn lemma_expands_larger(b: Seq<Tok>, target: Seq<char>, i: i64, j: i64, k: int)
    requires
        i <= j,
        expands_from(b, target, i, k),
    ensures
        expands_from(b, target, j, k),
    decreases b.len() - k,
{
    if 0 <= k < b.len() {
        if ident_match(b, k, target) > 0 {
            lemma_expands_larger(b, target, i, j, k + ident_match(b, k, target));
        } else {
            lemma_expands_larger(b, target, i, j, k + 1);
        }
    }
}

/// Whether an expansion of `b` with `target` for the number `i` runs
/// without indexing past a group's end or pasting an invalid identifier.
pub fn body_expands(b: &Vec<TokenTree>, target: &Ident, i: i64) -> (r: bool)
    ensures
        r == expands_from(toks(b@), ident_text(target@), i, 0),
{
    let t = target.text();
    let ghost bv = toks(b@);
    let mut k: usize = 0;
    while k < b.len()
        invariant
            bv == toks(b@),
            t@ == ident_text(target@),
            k <= b.len(),
            expands_from(bv, t@, i, 0) == expands_from(bv, t@, i, k as int),
        decreases b.len() - k,
    {
        if let TokenTree::Ident(_) = &b[k] {
            let mut idx = k;
            if seq_ident_panics(k, b, &t) {
                return false;
            }
            if seq_paste_invalid(k, b, &t, i) {
                return false;
            }
            match try_get_seq_ident(&mut idx, b, &t, i) {
                Some(_) => {
                    k = idx + 1;
                },
                None => {
                    k = k + 1;
                },
            }
        } else {
            k = k + 1;
        }
    }
    true
}

fn ident_is_text(t: &TokenTree, s: &Vec<char>) -> (r: bool)
    ensures
        r == is_ident_text(t@, s@),
{
    match t {
        TokenTree::Ident(x) => {
            let xt = x.text();
            text_eq(&xt, s)
        },
        _ => false,
    }
}

fn punct_is(t: &TokenTree, c: char) -> (r: bool)
    ensures
        r == is_punct_char(t@, c),
{
    match t {
        TokenTree::Punct { ch, .. } => *ch == c,
        _ => false,
    }
}

fn boundary_at(b: &Vec<TokenTree>, k: usize) -> (r: bool)
    ensures
        r == is_boundary(toks(b@), k as int),
{
    if k >= b.len() {
        true
    } else {
        match &b[k] {
            TokenTree::Close { .. } => true,
            _ => false,
        }
    }
}

/// Whether expanding the identifier at `k` would index past its group's end.
fn seq_ident_panics(k: usize, tokens: &Vec<TokenTree>, target: &Vec<char>) -> (r: bool)
    requires
        k < tokens.len(),
        tokens@[k as int] is Ident,
    ensures
        r == ident_panics(toks(tokens@), k as int, target@),
{
    let ghost b = toks(tokens@);
    let is_target = ident_is_text(&tokens[k], target);
    if is_target {
        return false;
    }
    if tokens.len() - k <= 2 {
        return false;
    }
    if !(punct_is(&tokens[k + 1], '#') && ident_is_text(&tokens[k + 2], target)) {
        return false;
    }
    if boundary_at(tokens, k + 3) {
        return true;
    }
    punct_is(&tokens[k + 3], '#') && boundary_at(tokens, k + 4)
}

/// Whether the identifier pasted at `k` for `i` would be invalid.
fn seq_paste_invalid(k: usize, tokens: &Vec<TokenTree>, target: &Vec<char>, i: i64) -> (r: bool)
    requires
        k < tokens.len(),
        tokens@[k as int] is Ident,
        !ident_panics(toks(tokens@), k as int, target@),
    ensures
        r == paste_invalid(toks(tokens@), k as int, target@, i),
{
    let ghost b = toks(tokens@);
    let raw1 = match &tokens[k] {
        TokenTree::Ident(x) => {
            let xt = x.text();
            if text_eq(&xt, target) {
                return false;
            }
            x.raw
        },
        _ => {
            return false;
        },
    };
    if tokens.len() - k <= 2 {
        return false;
    }
    if !(punct_is(&tokens[k + 1], '#') && ident_is_text(&tokens[k + 2], target)) {
        return false;
    }
    if boundary_at(tokens, k + 3) || !punct_is(&tokens[k + 3], '#') || boundary_at(tokens, k + 4) {
        return false;
    }
    let p_span = match &tokens[k + 3] {
        TokenTree::Punct { span, .. } => *span,
        _ => Span::CallSite,
    };
    let raw3 = match &tokens[k + 4] {
        TokenTree::Ident(z) => span_adjacent(p_span, z.span) && z.raw,
        _ => false,
    };
    i < 0 || raw1 || raw3
}

fn span_adjacent(p: Span, z: Span) -> (r: bool)
    ensures
        r == adjacent(p, z),
{
    match (p, z) {
        (Span::Source { end, .. }, Span::Source { start, .. }) => end == start,
        _ => false,
    }
}

/// Looks at the token at `*token_idx`: the number itself when it is the
/// target identifier, a pasted identifier for `x # target #` and
/// `x # target # y`, or `None` (with `*token_idx` unchanged) when it is
/// copied, as every token other than an identifier is.  On a paste,
/// `*token_idx` moves to the last token consumed.
pub fn try_get_seq_ident(
    token_idx: &mut usize,
    tokens: &Vec<TokenTree>,
    target_ident_str: &Vec<char>,
    i: i64,
) -> (r: Option<TokenTree>)
    requires
        *old(token_idx) < tokens.len(),
        !ident_panics(toks(tokens@), *old(token_idx) as int, target_ident_str@),
        !paste_invalid(toks(tokens@), *old(token_idx) as int, target_ident_str@, i),
    ensures
        ({
            let b = toks(tokens@);
            let k = *old(token_idx) as int;
            let n = ident_match(b, k, target_ident_str@);
            &&& n == 0 ==> r is None && *final(token_idx) == *old(token_idx)
            &&& n > 0 ==> (r matches Some(t) && t@ == replacement(b, k, target_ident_str@, i))
            &&& n > 0 ==> *final(token_idx) == k + n - 1
        }),
{
    let ghost b = toks(tokens@);
    let k = *token_idx;
    let ident_1 = match &tokens[k] {
        TokenTree::Ident(x) => x,
        _ => {
            return None;
        },
    };
    let text_1 = ident_1.text();
    if text_eq(&text_1, target_ident_str) {
        return Some(TokenTree::Literal { repr: LitRepr::Int(i), span: Span::CallSite });
    }
    if tokens.len() - k <= 2 {
        return None;
    }
    if !(punct_is(&tokens[k + 1], '#') && ident_is_text(&tokens[k + 2], target_ident_str)) {
        return None;
    }
    // the group goes on past `x # target`, so there is a token at `k + 3`
    let p_span = match &tokens[k + 3] {
        TokenTree::Punct { ch, span, .. } => {
            if *ch != '#' {
                return None;
            }
            *span
        },
        _ => {
            return None;
        },
    };
    let mut name = text_1;
    let num = i64_text(i);
    append_text(&mut name, &num);
    if let TokenTree::Ident(ident_3) = &tokens[k + 4] {
        if span_adjacent(p_span, ident_3.span) {
            let text_3 = ident_3.text();
            append_text(&mut name, &text_3);
            *token_idx = k + 4;
            return Some(TokenTree::Ident(Ident { raw: false, name, span: p_span }));
        }
    }
    *token_idx = k + 3;
    Some(TokenTree::Ident(Ident { raw: false, name, span: p_span }))
}

/// The body with the target identifier replaced by `i` and the pasting forms
/// pasted; every group is rebuilt at the call site.
pub fn expand(ts: &Vec<TokenTree>, target_ident: &Ident, i: i64) -> (r: Vec<TokenTree>)
    requires
        expands_from(toks(ts@), ident_text(target_ident@), i, 0),
    ensures
        toks(r@) == expand_from(toks(ts@), ident_text(target_ident@), i, 0),
{
    let ghost b = toks(ts@);
    let target = target_ident.text();
    let mut new_stream: Vec<TokenTree> = Vec::new();
    let mut token_idx: usize = 0;
    while token_idx < ts.len()
        invariant
            b == toks(ts@),
            target@ == ident_text(target_ident@),
            token_idx <= ts.len(),
            expands_from(b, target@, i, token_idx as int),
            toks(new_stream@) + expand_from(b, target@, i, token_idx as int) == expand_from(
                b,
                target@,
                i,
                0,
            ),
        decreases ts.len() - token_idx,
    {
        let ghost k = token_idx as int;
        let ghost before = toks(new_stream@);
        match &ts[token_idx] {
            TokenTree::Open { delim, .. } => {
                push_open(&mut new_stream, *delim);
                token_idx = token_idx + 1;
                assert(before.push(open(b[k]->Open_delim)) + expand_from(b, target@, i, k + 1)
                    =~= before + expand_from(b, target@, i, k));
            },
            TokenTree::Ident(_) => {
                match try_get_seq_ident(&mut token_idx, ts, &target, i) {
                    Some(t) => {
                        push_token(&mut new_stream, t);
                    },
                    None => {
                        let t = ts[token_idx].copy();
                        push_token(&mut new_stream, t);
                    },
                }
                token_idx = token_idx + 1;
                assert(toks(new_stream@) + expand_from(b, target@, i, token_idx as int)
                    =~= before + expand_from(b, target@, i, k));
            },
            _ => {
                let t = ts[token_idx].copy();
                push_token(&mut new_stream, t);
                token_idx = token_idx + 1;
                assert(toks(new_stream@) + expand_from(b, target@, i, token_idx as int)
                    =~= before + expand_from(b, target@, i, k));
            },
        }
    }
    assert(toks(new_stream@) =~= expand_from(b, target@, i, 0));
    new_stream
}

} // verus!

verus! {

// ---------------------------------------------------------------------------
// The header `N in START..STOP { BODY }`
// ---------------------------------------------------------------------------

/// What syn's `LitInt` makes of the text of a literal: `Some` of its base-10
/// digits (a leading `-` kept) when the text is an integer literal.  Only
/// applied to texts for which `number_text` holds: an optional `-`, then a
/// decimal digit, then ASCII letters, digits, `_` and `.`, so that the first
/// token that any lexer makes of the text is a number literal whose text is
/// a prefix of it, and the outcome does not depend on which lexer reads it.
pub uninterp spec fn int_literal_digits(text: Seq<char>) -> Option<Seq<char>>;

/// Whether a literal of this text is one that syn 1 does not recognize
/// (the C-string forms), on which its literal parser panics.
pub open spec fn unrecognized_literal(text: Seq<char>) -> bool {
    text.len() > 0 && text[0] == 'c'
}

/// A character that may occur in the text of a number literal other than in
/// the sign of an exponent.
pub open spec fn number_char(c: char) -> bool {
    ('0' <= c && c <= '9') || ('a' <= c && c <= 'z') || ('A' <= c && c <= 'Z') || c == '_'
        || c == '.'
}

/// Text that starts with a decimal digit and holds only number characters.
pub open spec fn number_body(t: Seq<char>) -> bool {
    &&& t.len() > 0
    &&& '0' <= t[0] && t[0] <= '9'
    &&& forall|i: int| 0 <= i < t.len() ==> number_char(#[trigger] t[i])
}

/// A number body, possibly behind a `-`.
pub open spec fn number_text(t: Seq<char>) -> bool {
    number_body(t) || (t.len() > 1 && t[0] == '-' && number_body(t.drop_first()))
}

/// The base-10 digits of an integer literal, as syn reads them: calls
/// `syn::parse_str::<syn::LitInt>` on the text and `LitInt::base10_digits` on
/// the result.  The contract claims only that the outcome is the named
/// function of the text, `None` where syn refuses it.  On a number text syn
/// lexes the text, reads the first token as a literal whose text starts with
/// a digit and holds no `+` or `-` (so its integer or float reading succeeds
/// and nothing panics), and refuses any further token.
#[verifier::external_body]
fn int_literal_digits_of(text: &Vec<char>) -> (r: Option<Vec<char>>)
    requires
        number_text(text@),
    ensures
        match r {
            Some(d) => int_literal_digits(text@) == Some(d@),
            None => int_literal_digits(text@) is None,
        },
{
    let s: String = text.iter().collect();
    match syn::parse_str::<syn::LitInt>(&s) {
        Ok(lit) => Some(lit.base10_digits().chars().collect()),
        Err(_) => None,
    }
}

/// An opening or closing marker of an invisible group; the parser looks
/// through them.
pub open spec fn is_invisible(t: Tok) -> bool {
    t matches Tok::Open { delim: Delimiter::Invisible, .. } || t matches Tok::Close {
        delim: Delimiter::Invisible,
    }
}

/// The first position from `k` on that is not an invisible marker.
pub open spec fn skip_invisible(b: Seq<Tok>, k: int) -> int
    decreases b.len() - k,
{
    if 0 <= k < b.len() && is_invisible(b[k]) {
        skip_invisible(b, k + 1)
    } else {
        k
    }
}

/// The span at which a parse error points for a token: an opening
/// delimiter for a group.
pub open spec fn cursor_span(t: Tok) -> Span {
    match t {
        Tok::Open { span_open, .. } => span_open,
        Tok::Close { .. } => Span::CallSite,
        Tok::Ident(x) => x.span,
        Tok::Punct { span, .. } => span,
        Tok::Literal { span, .. } => span,
        Tok::Verbatim { .. } => Span::CallSite,
    }
}

/// The span of a whole token: the whole group for a group.
pub open spec fn token_span(t: Tok) -> Span {
    match t {
        Tok::Open { span, .. } => span,
        _ => cursor_span(t),
    }
}

/// An error at one span.
pub open spec fn error_at(s: Span, message: Seq<char>) -> ErrorV {
    ErrorV { start: s, end: s, message }
}

/// "expected ..." at position `k`, or at the call site with
/// "unexpected end of input, " in front when the input is used up.
pub open spec fn expected_at(b: Seq<Tok>, k: int, message: Seq<char>) -> ErrorV {
    if 0 <= k < b.len() {
        error_at(cursor_span(b[k]), message)
    } else {
        error_at(Span::CallSite, "unexpected end of input, "@ + message)
    }
}

/// The words that syn's `Ident` parser refuses: `_` and the keywords of
/// its list.
pub open spec fn syn_reserved(s: Seq<char>) -> bool {
    ||| s == "_"@ ||| s == "abstract"@ ||| s == "as"@ ||| s == "become"@ ||| s == "box"@
    ||| s == "break"@ ||| s == "const"@ ||| s == "continue"@ ||| s == "crate"@ ||| s == "do"@
    ||| s == "else"@ ||| s == "enum"@ ||| s == "extern"@ ||| s == "false"@ ||| s == "final"@
    ||| s == "fn"@ ||| s == "for"@ ||| s == "if"@ ||| s == "impl"@ ||| s == "in"@
    ||| s == "let"@ ||| s == "loop"@ ||| s == "macro"@ ||| s == "match"@ ||| s == "mod"@
    ||| s == "move"@ ||| s == "mut"@ ||| s == "override"@ ||| s == "priv"@ ||| s == "pub"@
    ||| s == "ref"@ ||| s == "return"@ ||| s == "Self"@ ||| s == "self"@ ||| s == "static"@
    ||| s == "struct"@ ||| s == "super"@ ||| s == "trait"@ ||| s == "true"@ ||| s == "type"@
    ||| s == "typeof"@ ||| s == "unsafe"@ ||| s == "unsized"@ ||| s == "use"@
    ||| s == "virtual"@ ||| s == "where"@ ||| s == "while"@ ||| s == "yield"@
}

/// Whether syn's `Ident` parser takes this plain ASCII word as an
/// identifier.
pub open spec fn syn_accepts_word(text: Seq<char>) -> bool {
    !syn_reserved(text)
}

/// A plain ASCII word: a letter or `_`, then letters, digits and `_`.
pub open spec fn ascii_word(t: Seq<char>) -> bool {
    &&& t.len() > 0
    &&& (('a' <= t[0] && t[0] <= 'z') || ('A' <= t[0] && t[0] <= 'Z') || t[0] == '_')
    &&& forall|i: int|
        0 <= i < t.len() ==> {
            let c = #[trigger] t[i];
            ('a' <= c && c <= 'z') || ('A' <= c && c <= 'Z') || ('0' <= c && c <= '9') || c == '_'
        }
}

/// Whether syn takes the identifier token as an identifier: a raw one, or
/// one that is not a plain ASCII word, always (the words it refuses are all
/// plain ASCII words); a plain word as its `Ident` parser decides.
pub open spec fn accepted_ident(x: IdentV) -> bool {
    if x.raw || !ascii_word(x.name) {
        true
    } else {
        syn_accepts_word(x.name)
    }
}

/// The position of the marker that closes the group whose contents start at
/// `k`, `depth` groups deep; the length of `b` when there is none.
pub open spec fn close_index(b: Seq<Tok>, k: int, depth: nat) -> int
    decreases b.len() - k,
{
    if k < 0 || k >= b.len() {
        b.len() as int
    } else if b[k] is Open {
        close_index(b, k + 1, depth + 1)
    } else if b[k] is Close {
        if depth == 0 {
            k
        } else {
            close_index(b, k + 1, (depth - 1) as nat)
        }
    } else {
        close_index(b, k + 1, depth)
    }
}

/// The loop identifier.
pub open spec fn header_ident(b: Seq<Tok>) -> Result<(IdentV, int), ErrorV> {
    let k = skip_invisible(b, 0);
    if 0 <= k < b.len() && b[k] is Ident && accepted_ident(b[k]->Ident_0) {
        Ok((b[k]->Ident_0, k + 1))
    } else {
        Err(expected_at(b, k, "expected identifier"@))
    }
}

/// The keyword `in`.
pub open spec fn keyword_in(b: Seq<Tok>, k0: int) -> Result<int, ErrorV> {
    let k = skip_invisible(b, k0);
    if 0 <= k < b.len() && is_ident_text(b[k], "in"@) {
        Ok(k + 1)
    } else {
        Err(expected_at(b, k, "expected `in`"@))
    }
}

/// An integer literal, possibly negative: `None` when syn panics on it,
/// else its digits, the span of its first and last token, and the position
/// after it.
pub open spec fn lit_int(b: Seq<Tok>, k0: int) -> Option<Result<(Seq<char>, Span, Span, int), ErrorV>> {
    let k = skip_invisible(b, k0);
    let fail = Some(Err(expected_at(b, k, "expected integer literal"@)));
    if !(0 <= k < b.len()) {
        fail
    } else {
        match b[k] {
            Tok::Literal { lit: LitV::Source(t), span } => {
                if unrecognized_literal(t) {
                    None
                } else if number_text(t) {
                    match int_literal_digits(t) {
                        Some(d) => Some(Ok((d, span, span, k + 1))),
                        None => fail,
                    }
                } else {
                    fail
                }
            },
            Tok::Punct { ch, span: neg, .. } => {
                let k2 = skip_invisible(b, k + 1);
                if ch == '-' && 0 <= k2 < b.len() {
                    match b[k2] {
                        Tok::Literal { lit: LitV::Source(t), .. } => {
                            if number_body(t) {
                                match int_literal_digits(seq!['-'] + t) {
                                    Some(d) => Some(Ok((d, neg, neg, k2 + 1))),
                                    None => fail,
                                }
                            } else {
                                fail
                            }
                        },
                        _ => fail,
                    }
                } else {
                    fail
                }
            },
            _ => fail,
        }
    }
}

/// The range operator `..`: a `.` glued to a second `.`.
pub open spec fn dot_dot(b: Seq<Tok>, k0: int) -> Result<int, ErrorV> {
    let k = skip_invisible(b, k0);
    let here = if 0 <= k < b.len() {
        cursor_span(b[k])
    } else {
        Span::CallSite
    };
    if 0 <= k < b.len() && (b[k] matches Tok::Punct { ch, joint, .. } && ch == '.' && joint) {
        let k2 = skip_invisible(b, k + 1);
        if 0 <= k2 < b.len() && is_punct_char(b[k2], '.') {
            Ok(k2 + 1)
        } else {
            Err(error_at(here, "expected `..`"@))
        }
    } else {
        Err(error_at(here, "expected `..`"@))
    }
}

/// A brace group: its contents and the position after it.
pub open spec fn braces(b: Seq<Tok>, k0: int) -> Result<(Seq<Tok>, int), ErrorV> {
    let k = skip_invisible(b, k0);
    if 0 <= k < b.len() && b[k] matches Tok::Open { delim: Delimiter::Brace, .. } {
        let j = close_index(b, k + 1, 0);
        Ok((b.subrange(k + 1, j), if j < b.len() { j + 1 } else { j }))
    } else {
        Err(expected_at(b, k, "expected curly braces"@))
    }
}

/// The outcome of parsing a `seq!` input.
pub enum SeqParse {
    Parsed(SeqDefV),
    Failed(ErrorV),
    /// syn panics on a literal it does not recognize.
    Unrecognized,
}

/// A number of the range read from its digits, or the error at the literal.
pub open spec fn range_bound(d: Seq<char>, start: Span, end: Span) -> Result<i64, ErrorV> {
    match parse_i64_spec(d) {
        Ok(v) => Ok(v),
        Err(e) => Err(ErrorV { start, end, message: int_error_message(e) }),
    }
}

/// What parsing `ident in lit..lit { body }` (and nothing after it) gives.
pub open spec fn parse_seq_spec(b: Seq<Tok>) -> SeqParse {
    match header_ident(b) {
        Err(e) => SeqParse::Failed(e),
        Ok((id, k1)) => match keyword_in(b, k1) {
            Err(e) => SeqParse::Failed(e),
            Ok(k2) => match lit_int(b, k2) {
                None => SeqParse::Unrecognized,
                Some(Err(e)) => SeqParse::Failed(e),
                Some(Ok((d1, s1, e1, k3))) => match dot_dot(b, k3) {
                    Err(e) => SeqParse::Failed(e),
                    Ok(k4) => match lit_int(b, k4) {
                        None => SeqParse::Unrecognized,
                        Some(Err(e)) => SeqParse::Failed(e),
                        Some(Ok((d2, s2, e2, k5))) => match braces(b, k5) {
                            Err(e) => SeqParse::Failed(e),
                            Ok((body, k6)) => match range_bound(d1, s1, e1) {
                                Err(e) => SeqParse::Failed(e),
                                Ok(v1) => match range_bound(d2, s2, e2) {
                                    Err(e) => SeqParse::Failed(e),
                                    Ok(v2) => {
                                        let k7 = skip_invisible(b, k6);
                                        if 0 <= k7 < b.len() {
                                            SeqParse::Failed(
                                                error_at(token_span(b[k7]), "unexpected token"@),
                                            )
                                        } else {
                                            SeqParse::Parsed(
                                                SeqDefV {
                                                    ident: id,
                                                    start_num: v1,
                                                    stop_num: v2,
                                                    body,
                                                },
                                            )
                                        }
                                    },
                                },
                            },
                        },
                    },
                },
            },
        },
    }
}

} // verus!

verus! {

fn skip_invisible_at(b: &Vec<TokenTree>, k0: usize) -> (r: usize)
    requires
        k0 <= b.len(),
    ensures
        r as int == skip_invisible(toks(b@), k0 as int),
        k0 <= r <= b.len(),
{
    let ghost bv = toks(b@);
    let mut k = k0;
    while k < b.len()
        invariant
            bv == toks(b@),
            k0 <= k <= b.len(),
            skip_invisible(bv, k0 as int) == skip_invisible(bv, k as int),
        decreases b.len() - k,
    {
        let inv = match &b[k] {
            TokenTree::Open { delim: Delimiter::Invisible, .. } => true,
            TokenTree::Close { delim: Delimiter::Invisible } => true,
            _ => false,
        };
        if !inv {
            return k;
        }
        k = k + 1;
    }
    k
}

fn cursor_span_of(t: &TokenTree) -> (s: Span)
    ensures
        s == cursor_span(t@),
{
    match t {
        TokenTree::Open { span_open, .. } => *span_open,
        TokenTree::Close { .. } => Span::CallSite,
        TokenTree::Ident(x) => x.span,
        TokenTree::Punct { span, .. } => *span,
        TokenTree::Literal { span, .. } => *span,
        TokenTree::Verbatim { .. } => Span::CallSite,
    }
}

fn token_span_of(t: &TokenTree) -> (s: Span)
    ensures
        s == token_span(t@),
{
    match t {
        TokenTree::Open { span, .. } => *span,
        _ => cursor_span_of(t),
    }
}

/// The error for an unexpected token or the end of input at `k`.
fn expected_err(b: &Vec<TokenTree>, k: usize, message: &str) -> (e: CompileError)
    ensures
        e@ == expected_at(toks(b@), k as int, message@),
{
    if k < b.len() {
        let s = cursor_span_of(&b[k]);
        CompileError { start: s, end: s, message: text_of(message) }
    } else {
        let mut m = text_of("unexpected end of input, ");
        let t = text_of(message);
        append_text(&mut m, &t);
        CompileError { start: Span::CallSite, end: Span::CallSite, message: m }
    }
}

/// Whether syn takes a plain ASCII word as an identifier: calls
/// `syn::parse_str::<syn::Ident>` on it, which lexes the word as one
/// identifier and refuses it exactly when it is `_` or a keyword of syn's
/// list.
#[verifier::external_body]
fn syn_accepts_word_of(text: &Vec<char>) -> (r: bool)
    requires
        ascii_word(text@),
    ensures
        r == syn_accepts_word(text@),
{
    let s: String = text.iter().collect();
    syn::parse_str::<syn::Ident>(&s).is_ok()
}

fn is_ascii_word(t: &Vec<char>) -> (r: bool)
    ensures
        r == ascii_word(t@),
{
    if t.len() == 0 {
        return false;
    }
    let c0 = t[0];
    if !(('a' <= c0 && c0 <= 'z') || ('A' <= c0 && c0 <= 'Z') || c0 == '_') {
        return false;
    }
    let mut i: usize = 0;
    while i < t.len()
        invariant
            i <= t.len(),
            forall|j: int|
                0 <= j < i ==> {
                    let c = #[trigger] t@[j];
                    ('a' <= c && c <= 'z') || ('A' <= c && c <= 'Z') || ('0' <= c && c <= '9')
                        || c == '_'
                },
        decreases t.len() - i,
    {
        let c = t[i];
        if !(('a' <= c && c <= 'z') || ('A' <= c && c <= 'Z') || ('0' <= c && c <= '9') || c
            == '_') {
            return false;
        }
        i = i + 1;
    }
    true
}

/// Whether syn takes the identifier token as an identifier.
pub fn accepts_ident(x: &Ident) -> (r: bool)
    ensures
        r == accepted_ident(x@),
{
    if x.raw || !is_ascii_word(&x.name) {
        return true;
    }
    syn_accepts_word_of(&x.name)
}

fn parse_header_ident(b: &Vec<TokenTree>) -> (r: Result<(Ident, usize), CompileError>)
    ensures
        match r {
            Ok((x, k)) => header_ident(toks(b@)) == Ok::<(IdentV, int), ErrorV>((x@, k as int))
                && k <= b.len(),
            Err(e) => header_ident(toks(b@)) == Err::<(IdentV, int), ErrorV>(e@),
        },
{
    let k = skip_invisible_at(b, 0);
    if k < b.len() {
        if let TokenTree::Ident(x) = &b[k] {
            if accepts_ident(x) {
                return Ok((x.copy(), k + 1));
            }
        }
    }
    Err(expected_err(b, k, "expected identifier"))
}

fn parse_keyword_in(b: &Vec<TokenTree>, k0: usize) -> (r: Result<usize, CompileError>)
    requires
        k0 <= b.len(),
    ensures
        match r {
            Ok(k) => keyword_in(toks(b@), k0 as int) == Ok::<int, ErrorV>(k as int) && k <= b.len(),
            Err(e) => keyword_in(toks(b@), k0 as int) == Err::<int, ErrorV>(e@),
        },
{
    let k = skip_invisible_at(b, k0);
    if k < b.len() {
        if let TokenTree::Ident(x) = &b[k] {
            if x.is("in") {
                return Ok(k + 1);
            }
        }
    }
    Err(expected_err(b, k, "expected `in`"))
}

fn lit_text_starts_c(t: &Vec<char>) -> (r: bool)
    ensures
        r == unrecognized_literal(t@),
{
    t.len() > 0 && t[0] == 'c'
}

fn is_number_char(c: char) -> (r: bool)
    ensures
        r == number_char(c),
{
    ('0' <= c && c <= '9') || ('a' <= c && c <= 'z') || ('A' <= c && c <= 'Z') || c == '_'
        || c == '.'
}

/// Whether the text from `from` on is a number body.
fn is_number_body_from(t: &Vec<char>, from: usize) -> (r: bool)
    requires
        from <= t.len(),
    ensures
        r == number_body(t@.subrange(from as int, t.len() as int)),
{
    if from >= t.len() || !('0' <= t[from] && t[from] <= '9') {
        return false;
    }
    let mut i = from;
    while i < t.len()
        invariant
            from <= i <= t.len(),
            forall|j: int| from <= j < i ==> number_char(#[trigger] t@[j]),
        decreases t.len() - i,
    {
        if !is_number_char(t[i]) {
            assert(!number_char(t@.subrange(from as int, t.len() as int)[i - from]));
            return false;
        }
        i = i + 1;
    }
    assert forall|j: int| 0 <= j < t.len() - from implies number_char(
        #[trigger] t@.subrange(from as int, t.len() as int)[j],
    ) by {
        assert(number_char(t@[j + from]));
    }
    true
}

fn is_number_body(t: &Vec<char>) -> (r: bool)
    ensures
        r == number_body(t@),
{
    assert(t@.subrange(0, t.len() as int) =~= t@);
    is_number_body_from(t, 0)
}

fn is_number_text(t: &Vec<char>) -> (r: bool)
    ensures
        r == number_text(t@),
{
    if is_number_body(t) {
        return true;
    }
    if t.len() > 1 && t[0] == '-' {
        assert(t@.subrange(1, t.len() as int) =~= t@.drop_first());
        is_number_body_from(t, 1)
    } else {
        false
    }
}

/// The digits of an integer literal at `k0`; `None` when syn panics on it.
fn parse_lit_int(b: &Vec<TokenTree>, k0: usize) -> (r: Option<
    Result<(Vec<char>, Span, Span, usize), CompileError>,
>)
    requires
        k0 <= b.len(),
    ensures
        match r {
            None => lit_int(toks(b@), k0 as int) is None,
            Some(Ok((d, s, e, k))) => lit_int(toks(b@), k0 as int) == Some(
                Ok::<(Seq<char>, Span, Span, int), ErrorV>((d@, s, e, k as int)),
            ) && k <= b.len(),
            Some(Err(e)) => lit_int(toks(b@), k0 as int) == Some(
                Err::<(Seq<char>, Span, Span, int), ErrorV>(e@),
            ),
        },
{
    let k = skip_invisible_at(b, k0);
    if k >= b.len() {
        return Some(Err(expected_err(b, k, "expected integer literal")));
    }
    match &b[k] {
        TokenTree::Literal { repr: LitRepr::Source(t), span } => {
            if lit_text_starts_c(t) {
                return None;
            }
            if !is_number_text(t) {
                return Some(Err(expected_err(b, k, "expected integer literal")));
            }
            match int_literal_digits_of(t) {
                Some(d) => Some(Ok((d, *span, *span, k + 1))),
                None => Some(Err(expected_err(b, k, "expected integer literal"))),
            }
        },
        TokenTree::Punct { ch, span: neg, .. } => {
            let k2 = skip_invisible_at(b, k + 1);
            if *ch == '-' && k2 < b.len() {
                match &b[k2] {
                    TokenTree::Literal { repr: LitRepr::Source(t), .. } => {
                        if !is_number_body(t) {
                            return Some(Err(expected_err(b, k, "expected integer literal")));
                        }
                        let mut text: Vec<char> = Vec::new();
                        text.push('-');
                        append_text(&mut text, t);
                        assert(text@ =~= seq!['-'] + t@);
                        assert(text@.drop_first() =~= t@);
                        match int_literal_digits_of(&text) {
                            Some(d) => Some(Ok((d, *neg, *neg, k2 + 1))),
                            None => Some(Err(expected_err(b, k, "expected integer literal"))),
                        }
                    },
                    _ => Some(Err(expected_err(b, k, "expected integer literal"))),
                }
            } else {
                Some(Err(expected_err(b, k, "expected integer literal")))
            }
        },
        _ => Some(Err(expected_err(b, k, "expected integer literal"))),
    }
}

fn parse_dot_dot(b: &Vec<TokenTree>, k0: usize) -> (r: Result<usize, CompileError>)
    requires
        k0 <= b.len(),
    ensures
        match r {
            Ok(k) => dot_dot(toks(b@), k0 as int) == Ok::<int, ErrorV>(k as int) && k <= b.len(),
            Err(e) => dot_dot(toks(b@), k0 as int) == Err::<int, ErrorV>(e@),
        },
{
    let k = skip_invisible_at(b, k0);
    let here = if k < b.len() {
        cursor_span_of(&b[k])
    } else {
        Span::CallSite
    };
    if k < b.len() {
        if let TokenTree::Punct { ch, joint, .. } = &b[k] {
            if *ch == '.' && *joint {
                let k2 = skip_invisible_at(b, k + 1);
                if k2 < b.len() && punct_is(&b[k2], '.') {
                    return Ok(k2 + 1);
                }
            }
        }
    }
    Err(CompileError { start: here, end: here, message: text_of("expected `..`") })
}

/// The position of the marker closing the group whose contents start at `k0`.
fn find_close(b: &Vec<TokenTree>, k0: usize) -> (r: usize)
    requires
        k0 <= b.len(),
    ensures
        r as int == close_index(toks(b@), k0 as int, 0),
        k0 <= r <= b.len(),
{
    let ghost bv = toks(b@);
    let mut k = k0;
    let mut depth: usize = 0;
    while k < b.len()
        invariant
            bv == toks(b@),
            k0 <= k <= b.len(),
            depth <= k - k0,
            close_index(bv, k0 as int, 0) == close_index(bv, k as int, depth as nat),
        decreases b.len() - k,
    {
        match &b[k] {
            TokenTree::Open { .. } => {
                depth = depth + 1;
            },
            TokenTree::Close { .. } => {
                if depth == 0 {
                    return k;
                }
                depth = depth - 1;
            },
            _ => {},
        }
        k = k + 1;
    }
    k
}

/// Copies of the tokens of `b` from `from` up to `to`.
fn copy_range(b: &Vec<TokenTree>, from: usize, to: usize) -> (r: Vec<TokenTree>)
    requires
        from <= to <= b.len(),
    ensures
        toks(r@) == toks(b@).subrange(from as int, to as int),
{
    let mut r: Vec<TokenTree> = Vec::new();
    let mut k = from;
    while k < to
        invariant
            from <= k <= to <= b.len(),
            toks(r@) == toks(b@).subrange(from as int, k as int),
        decreases to - k,
    {
        let t = b[k].copy();
        push_token(&mut r, t);
        k = k + 1;
        assert(toks(r@) =~= toks(b@).subrange(from as int, k as int));
    }
    r
}

fn parse_braces(b: &Vec<TokenTree>, k0: usize) -> (r: Result<(Vec<TokenTree>, usize), CompileError>)
    requires
        k0 <= b.len(),
    ensures
        match r {
            Ok((body, k)) => braces(toks(b@), k0 as int) == Ok::<(Seq<Tok>, int), ErrorV>(
                (toks(body@), k as int),
            ) && k <= b.len(),
            Err(e) => braces(toks(b@), k0 as int) == Err::<(Seq<Tok>, int), ErrorV>(e@),
        },
{
    let k = skip_invisible_at(b, k0);
    if k < b.len() {
        if let TokenTree::Open { delim: Delimiter::Brace, .. } = &b[k] {
            let j = find_close(b, k + 1);
            let body = copy_range(b, k + 1, j);
            let next = if j < b.len() {
                j + 1
            } else {
                j
            };
            return Ok((body, next));
        }
    }
    Err(expected_err(b, k, "expected curly braces"))
}

/// A number of the range from the digits that syn read off its literal, or
/// the error, spanning the literal, when they do not fit in an `i64`.
pub fn bound_value(d: &Vec<char>, start: Span, end: Span) -> (r: Result<i64, CompileError>)
    ensures
        match r {
            Ok(v) => range_bound(d@, start, end) == Ok::<i64, ErrorV>(v),
            Err(e) => range_bound(d@, start, end) == Err::<i64, ErrorV>(e@),
        },
{
    match parse_i64(d) {
        Ok(v) => Ok(v),
        Err(e) => Err(CompileError { start, end, message: int_error_text(e) }),
    }
}

/// Parses `ident in start..stop { body }` with nothing after it.  `None`
/// where syn panics on a literal it does not recognize.
pub fn parse_seq_def(input: &Vec<TokenTree>) -> (r: Option<Result<SeqDef, CompileError>>)
    ensures
        match r {
            None => parse_seq_spec(toks(input@)) is Unrecognized,
            Some(Ok(d)) => parse_seq_spec(toks(input@)) == SeqParse::Parsed(d@),
            Some(Err(e)) => parse_seq_spec(toks(input@)) == SeqParse::Failed(e@),
        },
{
    let (ident, k1) = match parse_header_ident(input) {
        Ok(v) => v,
        Err(e) => {
            return Some(Err(e));
        },
    };
    let k2 = match parse_keyword_in(input, k1) {
        Ok(v) => v,
        Err(e) => {
            return Some(Err(e));
        },
    };
    let (d1, s1, e1, k3) = match parse_lit_int(input, k2) {
        None => {
            return None;
        },
        Some(Err(e)) => {
            return Some(Err(e));
        },
        Some(Ok(v)) => v,
    };
    let k4 = match parse_dot_dot(input, k3) {
        Ok(v) => v,
        Err(e) => {
            return Some(Err(e));
        },
    };
    let (d2, s2, e2, k5) = match parse_lit_int(input, k4) {
        None => {
            return None;
        },
        Some(Err(e)) => {
            return Some(Err(e));
        },
        Some(Ok(v)) => v,
    };
    let (body, k6) = match parse_braces(input, k5) {
        Ok(v) => v,
        Err(e) => {
            return Some(Err(e));
        },
    };
    let start_num = match bound_value(&d1, s1, e1) {
        Ok(v) => v,
        Err(e) => {
            return Some(Err(e));
        },
    };
    let stop_num = match bound_value(&d2, s2, e2) {
        Ok(v) => v,
        Err(e) => {
            return Some(Err(e));
        },
    };
    let k7 = skip_invisible_at(input, k6);
    if k7 < input.len() {
        let s = token_span_of(&input[k7]);
        return Some(Err(CompileError { start: s, end: s, message: text_of("unexpected token") }));
    }
    Some(Ok(SeqDef { ident, start_num, stop_num, body }))
}

} // verus!

verus! {

// ---------------------------------------------------------------------------
// The whole macro
// ---------------------------------------------------------------------------

/// The body expanded once for each number from `start` up to (not
/// including) `stop`, one copy after the other.
pub open spec fn seq_output(b: Seq<Tok>, target: Seq<char>, start: int, stop: int) -> Seq<Tok>
    decreases stop - start,
{
    if start >= stop {
        seq![]
    } else {
        expand_from(b, target, start as i64, 0) + seq_output(b, target, start + 1, stop)
    }
}

/// The expansion of a parsed `seq!`.
pub fn seq_expand(st: &SeqDef) -> (r: Vec<TokenTree>)
    requires
        st.start_num < st.stop_num ==> expands_from(
            toks(st.body@),
            ident_text(st.ident@),
            st.start_num,
            0,
        ),
    ensures
        toks(r@) == seq_output(
            toks(st.body@),
            ident_text(st.ident@),
            st.start_num as int,
            st.stop_num as int,
        ),
{
    let ghost b = toks(st.body@);
    let ghost t = ident_text(st.ident@);
    let mut r: Vec<TokenTree> = Vec::new();
    let mut idx = st.start_num;
    while idx < st.stop_num
        invariant
            b == toks(st.body@),
            t == ident_text(st.ident@),
            st.start_num <= idx,
            st.start_num < st.stop_num ==> expands_from(b, t, st.start_num, 0),
            toks(r@) + seq_output(b, t, idx as int, st.stop_num as int) == seq_output(
                b,
                t,
                st.start_num as int,
                st.stop_num as int,
            ),
        decreases st.stop_num - idx,
    {
        let ghost before = toks(r@);
        proof {
            lemma_expands_larger(b, t, st.start_num, idx, 0);
        }
        let new_part = expand(&st.body, &st.ident, idx);
        extend_tokens(&mut r, &new_part);
        assert(toks(r@) + seq_output(b, t, idx + 1, st.stop_num as int) =~= before + seq_output(
            b,
            t,
            idx as int,
            st.stop_num as int,
        ));
        idx = idx + 1;
    }
    assert(toks(r@) =~= seq_output(b, t, st.start_num as int, st.stop_num as int));
    r
}

/// What `seq!` makes of its input.
pub open spec fn seq_spec(input: Seq<Tok>) -> ExpansionV {
    match parse_seq_spec(input) {
        SeqParse::Unrecognized => ExpansionV::Panic,
        SeqParse::Failed(e) => ExpansionV::Error(e),
        SeqParse::Parsed(d) => if d.start_num < d.stop_num && !expands_from(
            d.body,
            ident_text(d.ident),
            d.start_num,
            0,
        ) {
            ExpansionV::Panic
        } else {
            ExpansionV::Tokens(
                seq_output(d.body, ident_text(d.ident), d.start_num as int, d.stop_num as int),
            )
        },
    }
}

/// `seq!`: parses the input and expands the body over the range; a parse
/// error becomes `compile_error!`.
pub fn seq(input: &Vec<TokenTree>) -> (r: Expansion)
    ensures
        r@ == rendered(seq_spec(toks(input@))),
{
    render(seq_expansion(input))
}

/// The expansion of a `seq!` input, or its parse error.
pub fn seq_expansion(input: &Vec<TokenTree>) -> (r: Expansion)
    ensures
        r@ == seq_spec(toks(input@)),
{
    match parse_seq_def(input) {
        None => Expansion::Panic,
        Some(Err(e)) => Expansion::Error(e),
        Some(Ok(st)) => {
            if st.start_num < st.stop_num && !body_expands(&st.body, &st.ident, st.start_num) {
                Expansion::Panic
            } else {
                Expansion::Tokens(seq_expand(&st))
            }
        },
    }
}

} // verus!

verus! {

// ---------------------------------------------------------------------------
// Laws
// ---------------------------------------------------------------------------

/// Expanding over `start..stop` is expanding over `start..mid`, then over
/// `mid..stop`.
pub proof fn lemma_seq_output_split(b: Seq<Tok>, target: Seq<char>, start: int, mid: int, stop: int)
    requires
        start <= mid <= stop,
    ensures
        seq_output(b, target, start, stop) == seq_output(b, target, start, mid) + seq_output(
            b,
            target,
            mid,
            stop,
        ),
    decreases mid - start,
{
    if start < mid {
        lemma_seq_output_split(b, target, start + 1, mid, stop);
        assert(seq_output(b, target, start, stop) =~= seq_output(b, target, start, mid)
            + seq_output(b, target, mid, stop));
    } else {
        assert(seq_output(b, target, start, mid) =~= seq![]);
        assert(seq_output(b, target, start, stop) =~= seq![] + seq_output(b, target, mid, stop));
    }
}

/// The body with every group rebuilt at the call site, from position `k` on.
pub open spec fn regroup_from(b: Seq<Tok>, k: int) -> Seq<Tok>
    decreases b.len() - k,
{
    if k < 0 || k >= b.len() {
        seq![]
    } else if b[k] is Open {
        seq![open(b[k]->Open_delim)] + regroup_from(b, k + 1)
    } else {
        seq![b[k]] + regroup_from(b, k + 1)
    }
}

/// A body in which the target identifier does not occur expands, for every
/// number, to itself with its groups rebuilt at the call site.
pub proof fn lemma_expand_untouched(b: Seq<Tok>, target: Seq<char>, i: i64, k: int)
    requires
        0 <= k,
        forall|j: int| 0 <= j < b.len() ==> !is_ident_text(#[trigger] b[j], target),
    ensures
        expand_from(b, target, i, k) == regroup_from(b, k),
        expands_from(b, target, i, k),
    decreases b.len() - k,
{
    if k < b.len() {
        lemma_expand_untouched(b, target, i, k + 1);
        if b[k] is Ident {
            assert(!is_ident_text(b[k], target));
            if k + 2 < b.len() {
                assert(!is_ident_text(b[k + 2], target));
            }
        }
    }
}

/// The expansion for `start..stop` holds one copy of the body per number.
pub proof fn lemma_seq_output_len_untouched(b: Seq<Tok>, target: Seq<char>, start: int, stop: int)
    requires
        start <= stop,
        i64::MIN <= start,
        stop <= i64::MAX + 1,
        forall|j: int| 0 <= j < b.len() ==> !is_ident_text(#[trigger] b[j], target),
    ensures
        seq_output(b, target, start, stop).len() == (stop - start) * regroup_from(b, 0).len(),
    decreases stop - start,
{
    if start < stop {
        lemma_expand_untouched(b, target, start as i64, 0);
        lemma_seq_output_len_untouched(b, target, start + 1, stop);
        assert(seq_output(b, target, start, stop) == expand_from(b, target, start as i64, 0)
            + seq_output(b, target, start + 1, stop));
        assert((stop - start) * regroup_from(b, 0).len() == regroup_from(b, 0).len() + (stop - (start
            + 1)) * regroup_from(b, 0).len()) by (nonlinear_arith);
    } else {
        assert((stop - start) * regroup_from(b, 0).len() == 0) by (nonlinear_arith)
            requires
                stop - start == 0,
        ;
    }
}

} // verus!

verus! {

proof fn lemma_nest_single(t: Tok, rest: Seq<Tok>, st: Seq<Delimiter>)
    ensures
        crate::nesting::nest_from(seq![t] + rest, 0, st) == match t {
            Tok::Open { delim, .. } => crate::nesting::nest_from(rest, 0, st.push(delim)),
            Tok::Close { delim } => if st.len() > 0 && st.last() == delim {
                crate::nesting::nest_from(rest, 0, st.drop_last())
            } else {
                None
            },
            _ => crate::nesting::nest_from(rest, 0, st),
        },
{
    crate::nesting::lemma_nest_append(seq![t], rest, st);
    let one = seq![t];
    match t {
        Tok::Open { delim, .. } => {
            assert(crate::nesting::nest_from(one, 1, st.push(delim)) == Some(st.push(delim)));
        },
        Tok::Close { delim } => {
            if st.len() > 0 && st.last() == delim {
                assert(crate::nesting::nest_from(one, 1, st.drop_last()) == Some(st.drop_last()));
            }
        },
        _ => {
            assert(crate::nesting::nest_from(one, 1, st) == Some(st));
        },
    }
}

proof fn lemma_nest_skip(b: Seq<Tok>, k: int, n: int, st: Seq<Delimiter>)
    requires
        0 <= k,
        0 <= n,
        k + n <= b.len(),
        forall|j: int| k <= j < k + n ==> crate::nesting::is_atom(#[trigger] b[j]),
    ensures
        crate::nesting::nest_from(b, k, st) == crate::nesting::nest_from(b, k + n, st),
    decreases n,
{
    if n > 0 {
        assert(crate::nesting::is_atom(b[k]));
        lemma_nest_skip(b, k + 1, n - 1, st);
    }
}

proof fn lemma_expand_nest(b: Seq<Tok>, target: Seq<char>, i: i64, k: int, st: Seq<Delimiter>)
    requires
        0 <= k,
    ensures
        crate::nesting::nest_from(expand_from(b, target, i, k), 0, st) == crate::nesting::nest_from(
            b,
            k,
            st,
        ),
    decreases b.len() - k,
{
    if k < b.len() {
        if b[k] is Open {
            let d = b[k]->Open_delim;
            lemma_expand_nest(b, target, i, k + 1, st.push(d));
            lemma_nest_single(open(d), expand_from(b, target, i, k + 1), st);
        } else if ident_match(b, k, target) > 0 {
            let n = ident_match(b, k, target) as int;
            lemma_expand_nest(b, target, i, k + n, st);
            lemma_nest_single(replacement(b, k, target, i), expand_from(b, target, i, k + n), st);
            assert forall|j: int| k <= j < k + n implies crate::nesting::is_atom(#[trigger] b[j]) by {
                if n > 1 {
                    assert(b[k + 1] is Punct);
                    assert(b[k + 2] is Ident);
                    assert(b[k + 3] is Punct);
                }
            }
            lemma_nest_skip(b, k, n, st);
        } else {
            match b[k] {
                Tok::Close { delim } => {
                    if st.len() > 0 && st.last() == delim {
                        lemma_expand_nest(b, target, i, k + 1, st.drop_last());
                    }
                },
                _ => {
                    lemma_expand_nest(b, target, i, k + 1, st);
                },
            }
            lemma_nest_single(b[k], expand_from(b, target, i, k + 1), st);
        }
    }
}

/// Expanding a well-nested body gives well-nested tokens, for every number.
pub proof fn lemma_expand_balanced(b: Seq<Tok>, target: Seq<char>, i: i64)
    requires
        crate::nesting::balanced(b),
    ensures
        crate::nesting::balanced(expand_from(b, target, i, 0)),
{
    lemma_expand_nest(b, target, i, 0, seq![]);
}

/// `seq!` over a well-nested body gives well-nested tokens.
pub proof fn lemma_seq_output_balanced(b: Seq<Tok>, target: Seq<char>, start: int, stop: int)
    requires
        crate::nesting::balanced(b),
        i64::MIN <= start,
    ensures
        crate::nesting::balanced(seq_output(b, target, start, stop)),
    decreases stop - start,
{
    broadcast use crate::nesting::group_balanced;

    if start < stop {
        lemma_expand_balanced(b, target, start as i64);
        lemma_seq_output_balanced(b, target, start + 1, stop);
    }
}

/// What a token of a body becomes when the body has no paste: the loop
/// variable becomes the number, an opening delimiter is rebuilt at the call
/// site, and every other token stays.
pub open spec fn substituted(t: Tok, target: Seq<char>, i: i64) -> Tok {
    match t {
        Tok::Ident(x) => if ident_text(x) == target {
            Tok::Literal { lit: LitV::Int(i), span: Span::CallSite }
        } else {
            t
        },
        Tok::Open { delim, .. } => open(delim),
        _ => t,
    }
}

/// Every occurrence of the loop variable becomes the number, whatever token
/// precedes it and at whatever depth it stands: the expansion from an
/// occurrence starts with the unsuffixed literal `i`, then goes on with the
/// next token.
pub proof fn lemma_target_becomes_number(b: Seq<Tok>, target: Seq<char>, i: i64, k: int)
    requires
        0 <= k < b.len(),
        b[k] matches Tok::Ident(x) && ident_text(x) == target,
    ensures
        expand_from(b, target, i, k) == seq![Tok::Literal { lit: LitV::Int(i), span: Span::CallSite }]
            + expand_from(b, target, i, k + 1),
{
}

/// A body without `#` expands token for token: the expansion has the
/// body's length, and its token `j` is the body's token `j` with the loop
/// variable replaced by the number.
pub proof fn lemma_expand_without_pastes(b: Seq<Tok>, target: Seq<char>, i: i64)
    requires
        forall|j: int| 0 <= j < b.len() ==> !is_punct_char(#[trigger] b[j], '#'),
    ensures
        expand_from(b, target, i, 0).len() == b.len(),
        forall|j: int|
            0 <= j < b.len() ==> #[trigger] expand_from(b, target, i, 0)[j] == substituted(
                b[j],
                target,
                i,
            ),
{
    lemma_expand_without_pastes_from(b, target, i, 0);
}

proof fn lemma_expand_without_pastes_from(b: Seq<Tok>, target: Seq<char>, i: i64, k: int)
    requires
        0 <= k <= b.len(),
        forall|j: int| 0 <= j < b.len() ==> !is_punct_char(#[trigger] b[j], '#'),
    ensures
        expand_from(b, target, i, k) =~= Seq::new(
            (b.len() - k) as nat,
            |j: int| substituted(b[k + j], target, i),
        ),
    decreases b.len() - k,
{
    if k < b.len() {
        lemma_expand_without_pastes_from(b, target, i, k + 1);
        if k + 1 < b.len() {
            assert(!is_punct_char(b[k + 1], '#'));
        }
        assert(!pastes(b, k, target));
        assert(expand_from(b, target, i, k) == seq![substituted(b[k], target, i)] + expand_from(
            b,
            target,
            i,
            k + 1,
        ));
    }
}

/// `x # N # y`, with `y` glued to the second `#`, becomes one identifier
/// for the number `i`: the text of `x`, the decimal digits of `i`, and the
/// text of `y`, at the span of the second `#`; expansion goes on after `y`.
pub proof fn lemma_paste_with_suffix(b: Seq<Tok>, target: Seq<char>, i: i64, k: int)
    requires
        0 <= k && k + 4 < b.len(),
        b[k] matches Tok::Ident(x) && ident_text(x) != target,
        is_punct_char(b[k + 1], '#'),
        is_ident_text(b[k + 2], target),
        is_punct_char(b[k + 3], '#'),
        b[k + 4] matches Tok::Ident(z) && adjacent(punct_span(b[k + 3]), z.span),
    ensures
        expand_from(b, target, i, k) == seq![
            Tok::Ident(
                IdentV {
                    raw: false,
                    name: ident_text(b[k]->Ident_0) + decimal(i as int) + ident_text(b[k + 4]->Ident_0),
                    span: punct_span(b[k + 3]),
                },
            ),
        ] + expand_from(b, target, i, k + 5),
{
}

/// `x # N #` not followed by a glued identifier becomes one identifier for
/// the number `i`: the text of `x` and the decimal digits of `i`, at the
/// span of the second `#`; expansion goes on after that `#`.
pub proof fn lemma_paste_without_suffix(b: Seq<Tok>, target: Seq<char>, i: i64, k: int)
    requires
        0 <= k && k + 4 < b.len(),
        b[k] matches Tok::Ident(x) && ident_text(x) != target,
        is_punct_char(b[k + 1], '#'),
        is_ident_text(b[k + 2], target),
        is_punct_char(b[k + 3], '#'),
        !(b[k + 4] is Close),
        !(b[k + 4] matches Tok::Ident(z) && adjacent(punct_span(b[k + 3]), z.span)),
    ensures
        expand_from(b, target, i, k) == seq![
            Tok::Ident(
                IdentV {
                    raw: false,
                    name: ident_text(b[k]->Ident_0) + decimal(i as int),
                    span: punct_span(b[k + 3]),
                },
            ),
        ] + expand_from(b, target, i, k + 4),
{
}

} // verus!
