//! Lexical analysis for a small experimental language: a pull-based lexer
//! that turns source text into position-tagged tokens.

pub mod diagnostics;
pub mod parser;
pub mod syntax;
