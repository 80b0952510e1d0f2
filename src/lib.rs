//! A tree-walking interpreter for the Bogus scripting language: a lexer,
//! a Pratt parser and an evaluator with lexically nested scopes.

pub mod tokens;
pub mod text;
pub mod lexer;
pub mod ast;
pub mod scope;
pub mod eval;
pub mod parser;
pub mod stdlib;
pub mod session;
pub mod repl;
pub mod laws;
pub mod visualize;
