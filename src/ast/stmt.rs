use vstd::prelude::*;

use crate::ast::expr::Expr;
use crate::tokens::Token;

verus! {

/// A statement node. A declaration without an initializer holds the `nil`
/// literal as its initializer.
#[derive(Debug, PartialEq)]
pub enum Stmt {
    Expression { expression: Expr },
    Print { expression: Expr },
    Var { name: Token, initializer: Expr },
}

} // verus!
