//! Verified code generation for a family of procedural macros: a builder
//! derive, a custom `Debug` derive, a `seq!` repetition macro, `#[sorted]`
//! checks and a bit-field layout generator.  Inputs and outputs are flat
//! token models; the compiler interface converts to and from them.
pub mod tokens;
pub mod decimal;
pub mod seq;
pub mod syntax;
pub mod generics;
pub mod builder;
pub mod sorted;
pub mod debug;
pub mod bitfield;

use vstd::prelude::*;

verus! {

/// A struct whose type parameter appears only inside `PhantomData`, with a
/// text and a bit mask: the kind of struct `#[derive(CustomDebug)]` serves,
/// printing the mask in binary and needing no `Debug` bound on `T`.
pub struct Field<T> {
    pub marker: core::marker::PhantomData<T>,
    pub string: String,
    pub bitmask: u8,
}

} // verus!
pub mod nesting;
