//! Syntactic front end of a small statically typed language.
//!
//! The crate turns a token stream into a tree of declarations. Parsing is
//! recursive descent for declarations, statements and types, and precedence
//! climbing for expressions. Every executable function is verified against
//! the grammar in [`grammar`], a mathematical description of what each
//! production yields on a given token sequence.
//!
//! - [`token`], [`span`], [`ast`], [`error`]: the data.
//! - [`interner`]: interned strings, kept by the `string-interner` crate.
//! - [`numeral`]: the value of an integer numeral.
//! - [`grammar`]: what each production yields.
//! - [`parser`]: the parser itself.
//! - [`progress`], [`laws`], [`arithmetic`]: what holds of every input.

pub mod span;
pub mod token;
pub mod interner;
pub mod ast;
pub mod error;
pub mod numeral;
pub mod grammar;
pub mod progress;
pub mod parser;
pub mod laws;
pub mod arithmetic;
