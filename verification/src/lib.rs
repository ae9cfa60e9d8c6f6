//! An interpreter pipeline for the Monkey language: lexer, Pratt parser and
//! tree-walking evaluator.

pub mod ast;
pub mod canonical;
pub mod decimal;
pub mod evaluator;
pub mod lexer;
pub mod object;
pub mod parser;
pub mod repl;
pub mod text;
pub mod token;
