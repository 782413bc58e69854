//! A parser-combinator engine.
//!
//! A [`Parser`] is an immutable, shareable description of how to consume a
//! prefix of an input string and turn it into a [`Value`].  Small primitive
//! parsers (a single symbol, a literal, a character class) are combined with
//! algebraic operations (sequence, alternative, bounded repetition, mapping,
//! lookahead, deferred rules) into parsers for whole grammars.  Every
//! combinator's behaviour is pinned to the ghost interpreter
//! [`sem::p_run`], and the laws the algebra obeys are proved in [`laws`].

pub mod apply;
pub mod atoms;
pub mod basic;
pub mod language;
pub mod laws;
pub mod parser;
pub mod sem;
pub mod transform;
pub mod text;
pub mod value;

pub use parser::Error;
pub use parser::Output;
pub use parser::Parser;
pub use value::VS;
pub use value::Value;
