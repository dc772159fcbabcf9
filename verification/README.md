# macro_workshop

Code generation for five procedural macros, written in Verus and proved
against specifications of what each macro emits:

- `#[derive(Builder)]`: a builder struct with one setter per field (or one
  item setter per `#[builder(each = "...")]` field) and a `build` method that
  reports the first missing field;
- `#[derive(CustomDebug)]`: a `Debug` impl that honours `#[debug = "..."]`
  formats, bounds only the type parameters that need it, and accepts a
  `#[debug(bound = "...")]` escape hatch;
- `seq!`: repeats a body once per number of a range, replacing the loop
  variable and pasting `prefix#N` identifiers;
- `#[sorted]` and `#[sorted::check]`: require enum variants and match arms in
  alphabetical order, pointing at the first item out of place;
- `#[bitfield]`: replaces the fields of a struct by a byte array of the total
  width, with the width types `B1` to `B64`.

## Layout

- `src/tokens.rs`: the flat token model (a group is an opening marker, its
  contents and a closing marker), spans, compile errors and token emitters.
- `src/syntax.rs`: the parts of parsed Rust syntax the macros read.
- `src/generics.rs`: generics split for an impl header (parameters with
  bounds, arguments, `where` clause).
- `src/nesting.rs`: well-nested token sequences; every macro keeps its output
  well nested whenever the tokens it copies from its input are.
- `src/decimal.rs`: decimal text of `i64` and its parser.
- `src/seq.rs`, `src/builder.rs`, `src/debug.rs`, `src/sorted.rs`,
  `src/bitfield.rs`: one module per macro, each with a spec function for its
  output, the executable code proved to produce it, and its laws.
- `app/`: the compiler side, which reads token streams with `syn` into the
  models, calls the library and turns the flat tokens back into a
  `proc_macro2::TokenStream`.
- `tests/`: the macros run on lexed source text.

Verify with Verus on `src/lib.rs`.
