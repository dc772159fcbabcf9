//! The parts of Rust syntax trees that the macros read: types as paths,
//! attributes as meta items, named fields, generics and derive inputs.
//! Each node keeps what the macros look at, and the tokens of the types that
//! they copy into their output.
use vstd::prelude::*;
use crate::tokens::{ident_text, toks, Ident, IdentV, Span, Tok, TokenTree};

verus! {

/// The arguments of a path segment.
#[derive(Debug)]
pub enum PathArguments {
    /// No arguments.
    NoArgs,
    /// `<A, B, ...>`
    AngleBracketed(Vec<GenericArgument>),
    /// `(A, B) -> C`
    Parenthesized,
}

/// One argument between angle brackets.
#[derive(Debug)]
pub enum GenericArgument {
    Type(Ty),
    /// A lifetime, a constant, a binding or a constraint.
    Other,
}

/// A segment of a type path.
#[derive(Debug)]
pub struct PathSegment {
    pub ident: Ident,
    pub arguments: PathArguments,
}

/// A type, with its tokens.
#[derive(Debug)]
pub enum Ty {
    /// A path type such as `std::vec::Vec<T>` or `<T as Trait>::Assoc`.
    Path { segments: Vec<PathSegment>, tokens: Vec<TokenTree> },
    /// Any other type.
    Other { tokens: Vec<TokenTree> },
}

/// A segment of the path of a meta item.
#[derive(Debug)]
pub struct MetaPathSegment {
    pub ident: Ident,
    pub has_arguments: bool,
}

/// The path of a meta item.
#[derive(Debug)]
pub struct MetaPath {
    pub leading_colon: bool,
    pub segments: Vec<MetaPathSegment>,
}

/// A literal in a meta item.
#[derive(Debug)]
pub enum Lit {
    /// A string literal and its value.
    Str { value: Vec<char>, span: Span },
    Other,
}

/// A meta item: `path`, `path(nested, ...)` or `path = lit`.
#[derive(Debug)]
pub enum Meta {
    Path(MetaPath),
    /// `start` and `end` are the spans of the first and last token of the list.
    List { path: MetaPath, nested: Vec<NestedMeta>, start: Span, end: Span },
    NameValue { path: MetaPath, lit: Lit },
}

/// An item inside a meta list.
#[derive(Debug)]
pub enum NestedMeta {
    Meta(Meta),
    Lit(Lit),
}

/// An attribute: the last segment of its path, and its meta item when its
/// tokens read as one.
#[derive(Debug)]
pub struct Attribute {
    pub path_last: Option<Ident>,
    pub meta: Option<Meta>,
}

/// A named field.
#[derive(Debug)]
pub struct Field {
    pub attrs: Vec<Attribute>,
    pub ident: Ident,
    pub ty: Ty,
}

/// The fields of a struct.
#[derive(Debug)]
pub enum Fields {
    Named(Vec<Field>),
    Unnamed,
    Unit,
}

/// What a derive input declares.
#[derive(Debug)]
pub enum Data {
    Struct(Fields),
    Enum,
    Union,
}

/// A generic parameter.
#[derive(Debug)]
pub enum GenericParam {
    /// A type parameter: its outer attributes, its name, its bounds one by
    /// one, and whether they end in `+` (its default is left out).
    Type { attrs: Vec<TokenTree>, ident: Ident, bounds: Vec<Vec<TokenTree>>, bounds_trailing: bool },
    /// A lifetime parameter: its whole definition, and the lifetime alone.
    Lifetime { def: Vec<TokenTree>, lifetime: Vec<TokenTree> },
    /// A const parameter: its attributes, `const`, name, `:` and type (its
    /// default is left out), and its name.
    Const { decl: Vec<TokenTree>, ident: Ident },
}

/// The generics of an item: the parameters, whether their list ends in
/// `,`, the predicates of the `where` clause, and whether that list ends in
/// `,`.
#[derive(Debug)]
pub struct Generics {
    pub params: Vec<GenericParam>,
    pub params_trailing: bool,
    pub predicates: Vec<Vec<TokenTree>>,
    pub where_trailing: bool,
}

/// The values of a sequence of token sequences.
pub open spec fn token_lists(s: Seq<Vec<TokenTree>>) -> Seq<Seq<Tok>> {
    Seq::new(s.len(), |i: int| toks(s[i]@))
}

/// The value of a generic parameter.
pub enum GenericParamV {
    Type { attrs: Seq<Tok>, ident: IdentV, bounds: Seq<Seq<Tok>>, bounds_trailing: bool },
    Lifetime { def: Seq<Tok>, lifetime: Seq<Tok> },
    Const { decl: Seq<Tok>, ident: IdentV },
}

/// The value of the generics of an item.
pub struct GenericsV {
    pub params: Seq<GenericParamV>,
    pub params_trailing: bool,
    pub predicates: Seq<Seq<Tok>>,
    pub where_trailing: bool,
}

impl View for GenericParam {
    type V = GenericParamV;

    open spec fn view(&self) -> GenericParamV {
        match self {
            GenericParam::Type { attrs, ident, bounds, bounds_trailing } => GenericParamV::Type {
                attrs: toks(attrs@),
                ident: ident@,
                bounds: token_lists(bounds@),
                bounds_trailing: *bounds_trailing,
            },
            GenericParam::Lifetime { def, lifetime } => GenericParamV::Lifetime {
                def: toks(def@),
                lifetime: toks(lifetime@),
            },
            GenericParam::Const { decl, ident } => GenericParamV::Const {
                decl: toks(decl@),
                ident: ident@,
            },
        }
    }
}

impl View for Generics {
    type V = GenericsV;

    open spec fn view(&self) -> GenericsV {
        GenericsV {
            params: Seq::new(self.params@.len(), |i: int| self.params@[i]@),
            params_trailing: self.params_trailing,
            predicates: token_lists(self.predicates@),
            where_trailing: self.where_trailing,
        }
    }
}

/// The input of a derive macro.
#[derive(Debug)]
pub struct DeriveInput {
    pub attrs: Vec<Attribute>,
    pub ident: Ident,
    pub generics: Generics,
    pub data: Data,
}

/// The tokens of a type.
pub open spec fn ty_tokens(t: Ty) -> Seq<Tok> {
    match t {
        Ty::Path { tokens, .. } => toks(tokens@),
        Ty::Other { tokens } => toks(tokens@),
    }
}

/// The last segment of a path type.
pub open spec fn last_segment(t: Ty) -> Option<PathSegment> {
    match t {
        Ty::Path { segments, .. } => if segments@.len() > 0 {
            Some(segments@.last())
        } else {
            None
        },
        Ty::Other { .. } => None,
    }
}

/// `path.is_ident(s)`: a single plain segment that displays as `s`.
pub open spec fn path_is_ident_spec(p: MetaPath, s: Seq<char>) -> bool {
    &&& !p.leading_colon
    &&& p.segments@.len() == 1
    &&& !p.segments@[0].has_arguments
    &&& ident_text(p.segments@[0].ident@) == s
}

impl Ty {
    /// The tokens of this type.
    pub fn tokens(&self) -> (r: &Vec<TokenTree>)
        ensures
            toks(r@) == ty_tokens(*self),
    {
        match self {
            Ty::Path { tokens, .. } => tokens,
            Ty::Other { tokens } => tokens,
        }
    }

    /// The last segment of this type when it is a path.
    pub fn last_segment(&self) -> (r: Option<&PathSegment>)
        ensures
            r matches Some(s) ==> last_segment(*self) == Some(*s),
            r is None ==> last_segment(*self) is None,
    {
        match self {
            Ty::Path { segments, .. } => {
                if segments.len() > 0 {
                    Some(&segments[segments.len() - 1])
                } else {
                    None
                }
            },
            Ty::Other { .. } => None,
        }
    }
}

impl MetaPath {
    /// Whether this path is the single identifier `s`.
    pub fn is_ident(&self, s: &str) -> (r: bool)
        ensures
            r == path_is_ident_spec(*self, s@),
    {
        !self.leading_colon && self.segments.len() == 1 && !self.segments[0].has_arguments
            && self.segments[0].ident.is(s)
    }
}

} // verus!
