//! Front end for the Meowind language: a lexer that turns source text into a
//! token stream with source spans, and a recursive-descent parser that turns
//! the token stream into an abstract syntax tree, both accumulating
//! structured diagnostics.

pub mod ast;
pub mod errors;
pub mod grammar;
pub mod laws;
pub mod lexer;
pub mod parser;
pub mod source;
pub mod strutil;
pub mod tokens;
