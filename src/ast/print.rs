use vstd::prelude::*;

use crate::ast::expr::Expr;
use crate::interpreter::{display, display_value};

verus! {

/// Each part preceded by a space.
pub open spec fn spaced(parts: Seq<Seq<char>>) -> Seq<char>
    decreases parts.len(),
{
    if parts.len() == 0 {
        Seq::empty()
    } else {
        spaced(parts.drop_last()) + " "@ + parts.last()
    }
}

/// `(name part part ...)`.
pub open spec fn parenthesized(name: Seq<char>, parts: Seq<Seq<char>>) -> Seq<char> {
    "("@ + name + spaced(parts) + ")"@
}

pub open spec fn str_views(v: Seq<&str>) -> Seq<Seq<char>> {
    v.map_values(|s: &str| s@)
}

/// The prefix form of an expression: operators and groups parenthesised
/// around their operands, literals in their display form, variables by
/// name.
pub open spec fn rendered(e: Expr) -> Seq<char>
    decreases e,
{
    match e {
        Expr::Binary { left, operator, right } => parenthesized(
            operator.lexeme@,
            seq![rendered(*left), rendered(*right)],
        ),
        Expr::Literal { value } => display(value@),
        Expr::Grouping { expression } => parenthesized("group"@, seq![rendered(*expression)]),
        Expr::Unary { operator, right } => parenthesized(operator.lexeme@, seq![rendered(*right)]),
        Expr::Variable { name } => name.lexeme@,
    }
}

/// Prints expressions in prefix form, for debugging.
pub struct AstPrinter {}

impl AstPrinter {
    /// `(lexeme e1 e2 ...)`.
    pub fn parenthesize(lexeme: &str, exprs: Vec<&str>) -> (r: String)
        ensures
            r@ == parenthesized(lexeme@, str_views(exprs@)),
    {
        let mut response = String::from_str("(").concat(lexeme);
        let mut i: usize = 0;
        while i < exprs.len()
            invariant
                i <= exprs@.len(),
                response@ == "("@ + lexeme@ + spaced(str_views(exprs@.subrange(0, i as int))),
            decreases exprs@.len() - i,
        {
            let ghost before = response@;
            response = response.concat(" ").concat(exprs[i]);
            proof {
                let parts = str_views(exprs@.subrange(0, i + 1));
                assert(parts.drop_last() =~= str_views(exprs@.subrange(0, i as int)));
                assert(parts.last() == exprs@[i as int]@);
            }
            i = i + 1;
        }
        assert(exprs@.subrange(0, exprs@.len() as int) =~= exprs@);
        response.concat(")")
    }

    /// The prefix form of `expr`.
    pub fn print(&self, expr: &Expr) -> (r: String)
        ensures
            r@ == rendered(*expr),
        decreases expr,
    {
        match expr {
            Expr::Binary { left, operator, right } => {
                let l = self.print(left);
                let r = self.print(right);
                let parts = vec![l.as_str(), r.as_str()];
                assert(str_views(parts@) =~= seq![rendered(**left), rendered(**right)]);
                AstPrinter::parenthesize(operator.lexeme.as_str(), parts)
            },
            Expr::Literal { value } => display_value(value),
            Expr::Grouping { expression } => {
                let inner = self.print(expression);
                let parts = vec![inner.as_str()];
                assert(str_views(parts@) =~= seq![rendered(**expression)]);
                AstPrinter::parenthesize("group", parts)
            },
            Expr::Unary { operator, right } => {
                let inner = self.print(right);
                let parts = vec![inner.as_str()];
                assert(str_views(parts@) =~= seq![rendered(**right)]);
                AstPrinter::parenthesize(operator.lexeme.as_str(), parts)
            },
            Expr::Variable { name } => name.lexeme.clone(),
        }
    }
}

} // verus!
