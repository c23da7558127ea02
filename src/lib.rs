//! Lexical analysis for a small expression-oriented language: source text in,
//! an ordered sequence of tokens out, with every step proved against a
//! mathematical statement of the lexical rules.

pub mod error;
pub mod expr;
pub mod laws;
pub mod lexer;
pub mod position;
pub mod rules;
pub mod text;
pub mod token;
