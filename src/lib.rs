//! A tree-walking interpreter core for a small dynamically typed scripting
//! language: scanner, recursive-descent parser, and evaluator, each with a
//! contract over a mathematical model of its input and output.
pub mod ast;
pub mod environment;
pub mod errors;
pub mod interpreter;
pub mod keywords;
pub mod number;
pub mod parser;
pub mod rlox;
pub mod scanner;
pub mod text;
pub mod tokens;
