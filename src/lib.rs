//! Front end and type-inference core of a small statically typed language:
//! tokens, a restriction-aware expression parser, an arena of type variables,
//! unification with an occurs check, implicit coercions and pattern binding.

pub mod abi;
pub mod access;
pub mod ast;
pub mod bind;
pub mod check;
pub mod coerce;
pub mod diagnostic;
pub mod display;
pub mod library;
pub mod parse;
pub mod pattern;
pub mod span;
pub mod stack;
pub mod text;
pub mod token;
pub mod ty;
pub mod tycx;
pub mod unify;
pub mod workspace;
