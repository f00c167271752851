//! The front end of a compiler for MiniC, a small C-like language.
//!
//! - [`lexer_regex`], [`lexer_manual`] and [`rules`]: three tokenizers, the
//!   first and the last on top of the patterns of [`pattern`];
//! - [`parser`]: a recursive-descent parser from tokens to a syntax tree,
//!   with recovery from malformed input;
//! - [`scope`]: lexical scope resolution over an arena of scopes;
//! - [`type_checker`]: type checking against the scopes that the resolver
//!   built;
//! - [`agreement`]: the proof that resolver and checker see the same scope
//!   at every place of a program;
//! - [`text`]: strings as sequences of characters.
//!
//! Every pass is stated against a mathematical model of what it computes
//! and proved to compute it.

pub mod agreement;
pub mod lexer_manual;
pub mod lexer_regex;
pub mod parser;
pub mod pattern;
pub mod rules;
pub mod scope;
pub mod text;
pub mod type_checker;
