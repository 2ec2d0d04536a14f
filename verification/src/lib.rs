//! Core of a tree-walking interpreter for the Monkey language: a streaming
//! lexer, a Pratt parser producing a typed abstract syntax tree, a
//! pretty-printer, and a recursive evaluator with non-local `return`
//! propagation.

pub mod ast;
pub mod evaluator;
pub mod grammar;
pub mod lexer;
pub mod object;
pub mod parser;
pub mod text;
pub mod token;
