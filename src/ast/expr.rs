use vstd::prelude::*;

use crate::tokens::{Object, Token};

verus! {

/// An expression node; each node owns its children.
#[derive(Debug, PartialEq)]
pub enum Expr {
    Binary { left: Box<Expr>, operator: Token, right: Box<Expr> },
    Literal { value: Object },
    Grouping { expression: Box<Expr> },
    Unary { operator: Token, right: Box<Expr> },
    Variable { name: Token },
}

} // verus!
