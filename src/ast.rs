//! The syntax tree: expressions, statements, and a printer for expressions.
pub mod expr;
pub mod print;
pub mod stmt;
