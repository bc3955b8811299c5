//! The recursive-descent parser, with synchronisation after syntax errors.
//!
//! Grammar, lowest precedence first; every binary level is left-associative:
//! ```text
//! program     -> declaration* EOF
//! declaration -> "var" IDENTIFIER ( "=" expression )? ";" | statement
//! statement   -> "print" expression ";" | expression ";"
//! expression  -> equality
//! equality    -> comparison ( ( "==" | "!=" ) comparison )*
//! comparison  -> term ( ( ">" | ">=" | "<" | "<=" ) term )*
//! term        -> factor ( ( "-" | "+" ) factor )*
//! factor      -> unary ( ( "/" | "*" ) unary )*
//! unary       -> ( "!" | "-" ) unary | primary
//! primary     -> NUMBER | STRING | "true" | "false" | "nil" | IDENTIFIER
//!              | "(" expression ")"
//! ```
use vstd::prelude::*;

use crate::ast::expr::Expr;
use crate::ast::stmt::Stmt;
use crate::errors::Diagnostic;
use crate::scanner::diagnostic_views;
use crate::tokens::{Object, Token, TokenType};

verus! {

/// The outcome of a production at some position: what it built and how many
/// tokens it used, or the message of the error and how many tokens it used
/// before the token where the error was found.
pub enum Parse<T> {
    Parsed(T, nat),
    Failed(nat, Seq<char>),
}

impl<T> Parse<T> {
    /// The tokens used.
    pub open spec fn used(self) -> nat {
        match self {
            Parse::Parsed(_, u) => u,
            Parse::Failed(u, _) => u,
        }
    }
}

/// The same outcome, found `k` tokens further left.
pub open spec fn shift<T>(r: Parse<T>, k: nat) -> Parse<T> {
    match r {
        Parse::Parsed(x, u) => Parse::Parsed(x, u + k),
        Parse::Failed(u, m) => Parse::Failed(u + k, m),
    }
}

/// A token stream that the parser accepts: it ends with the end-of-file
/// token, and every number or string token carries its value.
pub open spec fn well_formed(ts: Seq<Token>) -> bool {
    &&& ts.len() >= 1
    &&& ts.last().token_type == TokenType::Eof
    &&& forall|i: int|
        0 <= i < ts.len() && (ts[i].token_type == TokenType::Number || ts[i].token_type
            == TokenType::String) ==> #[trigger] ts[i].literal is Some
}

/// The token at `p` has type `t` and the stream has not ended there.
pub open spec fn check_at(ts: Seq<Token>, p: int, t: TokenType) -> bool {
    0 <= p < ts.len() && ts[p].token_type != TokenType::Eof && ts[p].token_type == t
}

/// The operators of a binary level: 4 equality, 3 comparison, 2 term,
/// 1 factor.
pub open spec fn is_operator(level: nat, t: TokenType) -> bool {
    if level == 4 {
        t == TokenType::EqualEqual || t == TokenType::BangEqual
    } else if level == 3 {
        t == TokenType::Greater || t == TokenType::GreaterEqual || t == TokenType::Less || t
            == TokenType::LessEqual
    } else if level == 2 {
        t == TokenType::Minus || t == TokenType::Plus
    } else if level == 1 {
        t == TokenType::Slash || t == TokenType::Star
    } else {
        false
    }
}

pub open spec fn operator_at(ts: Seq<Token>, level: nat, p: int) -> bool {
    0 <= p < ts.len() && ts[p].token_type != TokenType::Eof && is_operator(level, ts[p].token_type)
}

/// The value of a number or string token.
pub open spec fn literal_value(t: Token) -> Object {
    match t.literal {
        Some(v) => v,
        None => Object::Nil,
    }
}

pub open spec fn primary(ts: Seq<Token>, p: int) -> Parse<Expr>
    decreases ts.len() - p, 0nat,
{
    if check_at(ts, p, TokenType::False) {
        Parse::Parsed(Expr::Literal { value: Object::Boolean(false) }, 1)
    } else if check_at(ts, p, TokenType::True) {
        Parse::Parsed(Expr::Literal { value: Object::Boolean(true) }, 1)
    } else if check_at(ts, p, TokenType::Nil) {
        Parse::Parsed(Expr::Literal { value: Object::Nil }, 1)
    } else if check_at(ts, p, TokenType::Number) || check_at(ts, p, TokenType::String) {
        Parse::Parsed(Expr::Literal { value: literal_value(ts[p]) }, 1)
    } else if check_at(ts, p, TokenType::LeftParen) {
        match binary(ts, 4, p + 1) {
            Parse::Parsed(e, u) => if check_at(ts, p + 1 + u, TokenType::RightParen) {
                Parse::Parsed(Expr::Grouping { expression: Box::new(e) }, u + 2)
            } else {
                Parse::Failed(u + 1, "Expect ')' after expression."@)
            },
            Parse::Failed(u, m) => Parse::Failed(u + 1, m),
        }
    } else if check_at(ts, p, TokenType::Identifier) {
        Parse::Parsed(Expr::Variable { name: ts[p] }, 1)
    } else {
        Parse::Failed(0, "Expect expression."@)
    }
}

pub open spec fn unary(ts: Seq<Token>, p: int) -> Parse<Expr>
    decreases ts.len() - p, 1nat,
{
    if check_at(ts, p, TokenType::Bang) || check_at(ts, p, TokenType::Minus) {
        match unary(ts, p + 1) {
            Parse::Parsed(e, u) => Parse::Parsed(
                Expr::Unary { operator: ts[p], right: Box::new(e) },
                u + 1,
            ),
            Parse::Failed(u, m) => Parse::Failed(u + 1, m),
        }
    } else {
        primary(ts, p)
    }
}

/// The production that a binary level takes its operands from.
pub open spec fn operand(ts: Seq<Token>, level: nat, p: int) -> Parse<Expr>
    decreases ts.len() - p, 2 * level + 2,
{
    if level <= 1 {
        unary(ts, p)
    } else {
        binary(ts, (level - 1) as nat, p)
    }
}

/// A binary level: an operand, then as many operator-operand pairs as
/// follow, folded to the left.
pub open spec fn binary(ts: Seq<Token>, level: nat, p: int) -> Parse<Expr>
    decreases ts.len() - p, 2 * level + 3,
{
    match operand(ts, level, p) {
        Parse::Parsed(e, u) => if p + u < ts.len() {
            shift(fold(ts, level, e, p + u), u)
        } else {
            Parse::Parsed(e, u)
        },
        Parse::Failed(u, m) => Parse::Failed(u, m),
    }
}

/// Folds the operator-operand pairs at `p` onto `left`.
pub open spec fn fold(ts: Seq<Token>, level: nat, left: Expr, p: int) -> Parse<Expr>
    decreases ts.len() - p, 2 * level + 2,
{
    if operator_at(ts, level, p) {
        match operand(ts, level, p + 1) {
            Parse::Parsed(r, u) => {
                let e = Expr::Binary { left: Box::new(left), operator: ts[p], right: Box::new(r) };
                if p + 1 + u < ts.len() {
                    shift(fold(ts, level, e, p + 1 + u), u + 1)
                } else {
                    Parse::Parsed(e, u + 1)
                }
            },
            Parse::Failed(u, m) => Parse::Failed(u + 1, m),
        }
    } else {
        Parse::Parsed(left, 0)
    }
}

pub open spec fn expression(ts: Seq<Token>, p: int) -> Parse<Expr> {
    binary(ts, 4, p)
}

/// An expression closed by `;`: a print statement when `print` holds,
/// else an expression statement.
pub open spec fn closed_statement(ts: Seq<Token>, p: int, print: bool) -> Parse<Stmt> {
    match expression(ts, p) {
        Parse::Parsed(e, u) => if check_at(ts, p + u, TokenType::Semicolon) {
            Parse::Parsed(
                if print {
                    Stmt::Print { expression: e }
                } else {
                    Stmt::Expression { expression: e }
                },
                u + 1,
            )
        } else {
            Parse::Failed(u, "Expect ; after value."@)
        },
        Parse::Failed(u, m) => Parse::Failed(u, m),
    }
}

pub open spec fn statement(ts: Seq<Token>, p: int) -> Parse<Stmt> {
    if check_at(ts, p, TokenType::Print) {
        shift(closed_statement(ts, p + 1, true), 1)
    } else {
        closed_statement(ts, p, false)
    }
}

/// The end of a declaration whose name is at `p`, `k` tokens from the name.
pub open spec fn finish_var(ts: Seq<Token>, p: int, initializer: Expr, k: nat) -> Parse<Stmt> {
    if check_at(ts, p + k, TokenType::Semicolon) {
        Parse::Parsed(Stmt::Var { name: ts[p], initializer }, k + 1)
    } else {
        Parse::Failed(k, "Expect ';' after variable declaration."@)
    }
}

/// A declaration after its `var`.
pub open spec fn var_declaration(ts: Seq<Token>, p: int) -> Parse<Stmt> {
    if check_at(ts, p, TokenType::Identifier) {
        if check_at(ts, p + 1, TokenType::Equal) {
            match expression(ts, p + 2) {
                Parse::Parsed(e, u) => finish_var(ts, p, e, u + 2),
                Parse::Failed(u, m) => Parse::Failed(u + 2, m),
            }
        } else {
            finish_var(ts, p, Expr::Literal { value: Object::Nil }, 1)
        }
    } else {
        Parse::Failed(0, "Expect variable name."@)
    }
}

pub open spec fn declaration(ts: Seq<Token>, p: int) -> Parse<Stmt> {
    if check_at(ts, p, TokenType::Var) {
        shift(var_declaration(ts, p + 1), 1)
    } else {
        statement(ts, p)
    }
}

pub open spec fn starts_statement(t: TokenType) -> bool {
    t == TokenType::Class || t == TokenType::Fun || t == TokenType::Var || t == TokenType::For
        || t == TokenType::If || t == TokenType::While || t == TokenType::Print || t
        == TokenType::Return
}

/// From `r` on, the first position just after a `;` or at a token that
/// begins a statement, or at the end of the stream.
pub open spec fn sync_scan(ts: Seq<Token>, r: int) -> int
    decreases ts.len() - r,
{
    if !(0 < r < ts.len()) || ts[r].token_type == TokenType::Eof {
        r
    } else if ts[r - 1].token_type == TokenType::Semicolon || starts_statement(ts[r].token_type) {
        r
    } else {
        sync_scan(ts, r + 1)
    }
}

/// Where parsing resumes after the declaration that starts at `p` failed
/// at `q`: from `q` (past it when the declaration used no token), up to a
/// statement boundary.
pub open spec fn synchronize(ts: Seq<Token>, p: int, q: int) -> int {
    if p < q {
        sync_scan(ts, q)
    } else if 0 <= q < ts.len() && ts[q].token_type != TokenType::Eof {
        sync_scan(ts, q + 1)
    } else {
        q
    }
}

pub proof fn lemma_sync_scan(ts: Seq<Token>, r: int)
    requires
        0 <= r <= ts.len(),
    ensures
        r <= sync_scan(ts, r) <= ts.len(),
    decreases ts.len() - r,
{
    if 0 < r < ts.len() && ts[r].token_type != TokenType::Eof && !(ts[r - 1].token_type
        == TokenType::Semicolon || starts_statement(ts[r].token_type)) {
        lemma_sync_scan(ts, r + 1);
    }
}

/// The statements of the program from `p` on, and a diagnostic for each
/// declaration that failed, which adds no statement.
pub open spec fn program(ts: Seq<Token>, p: int) -> (Seq<Stmt>, Seq<(u64, Seq<char>)>)
    decreases ts.len() - p,
{
    if !(0 <= p < ts.len()) || ts[p].token_type == TokenType::Eof {
        (Seq::empty(), Seq::empty())
    } else {
        match declaration(ts, p) {
            Parse::Parsed(s, u) => {
                let rest = program(ts, p + u);
                (seq![s] + rest.0, rest.1)
            },
            Parse::Failed(u, m) => {
                let q = p + u;
                if q < ts.len() {
                    proof {
                        lemma_sync_scan(ts, q);
                        lemma_sync_scan(ts, q + 1);
                    }
                    let rest = program(ts, synchronize(ts, p, q));
                    (rest.0, seq![(ts[q].line, m)] + rest.1)
                } else {
                    (Seq::empty(), Seq::empty())
                }
            },
        }
    }
}

/// Recovery keeps the next statement: when the first declaration fails at
/// a token that begins a statement (a missing `;` before `print` or `var`),
/// the error is reported and parsing resumes at that token, so the
/// statements from there on are all kept.
pub proof fn lemma_recovery_keeps_next_statement(ts: Seq<Token>)
    requires
        ts.len() >= 1,
        ts[0].token_type != TokenType::Eof,
        declaration(ts, 0) is Failed,
        0 < declaration(ts, 0).used() < ts.len(),
        starts_statement(ts[declaration(ts, 0).used() as int].token_type),
    ensures
        ({
            let q = declaration(ts, 0).used() as int;
            let message = declaration(ts, 0)->Failed_1;
            &&& program(ts, 0).0 == program(ts, q).0
            &&& program(ts, 0).1 == seq![(ts[q].line, message)] + program(ts, q).1
        }),
{
}

/// An executed production agrees with its outcome from `p`: the same tree,
/// or an error at the same token with the same message; and the cursor
/// moved over the tokens used.
pub open spec fn agrees<T>(
    r: Result<T, Diagnostic>,
    outcome: Parse<T>,
    ts: Seq<Token>,
    p: int,
    after: int,
) -> bool {
    match outcome {
        Parse::Parsed(x, u) => r == Ok::<T, Diagnostic>(x) && after == p + u,
        Parse::Failed(u, m) => after == p + u && match r {
            Ok(_) => false,
            Err(d) => d.line == ts[p + u].line && d.message@ == m,
        },
    }
}

/// A parser over a token stream; `current` is the position of the next
/// token to read.
pub struct Parser {
    pub tokens: Vec<Token>,
    pub current: usize,
}

impl Parser {
    pub open spec fn wf(&self) -> bool {
        well_formed(self.tokens@) && self.current < self.tokens@.len()
    }

    /// A parser at the start of `token_stream`.
    pub fn new(token_stream: Vec<Token>) -> (r: Parser)
        requires
            well_formed(token_stream@),
        ensures
            r.wf(),
            r.tokens == token_stream,
            r.current == 0,
    {
        Parser { tokens: token_stream, current: 0 }
    }

    fn is_at_end(&self) -> (r: bool)
        requires
            self.wf(),
        ensures
            r == (self.tokens@[self.current as int].token_type == TokenType::Eof),
    {
        self.tokens[self.current].token_type == TokenType::Eof
    }

    fn check(&self, token_type: TokenType) -> (r: bool)
        requires
            self.wf(),
        ensures
            r == check_at(self.tokens@, self.current as int, token_type),
    {
        !self.is_at_end() && self.tokens[self.current].token_type == token_type
    }

    fn peek(&self) -> (r: Token)
        requires
            self.wf(),
        ensures
            r == self.tokens@[self.current as int],
    {
        self.tokens[self.current].duplicate()
    }

    /// Steps over the current token; never past the end-of-file token.
    fn advance(&mut self)
        requires
            old(self).wf(),
        ensures
            final(self).wf(),
            final(self).tokens == old(self).tokens,
            final(self).current == if old(self).tokens@[old(self).current as int].token_type
                == TokenType::Eof {
                old(self).current as int
            } else {
                old(self).current + 1
            },
    {
        if !self.is_at_end() {
            let n = self.tokens.len();
            assert(self.current + 1 < n);
            self.current = self.current + 1;
        }
    }

    fn match_token(&mut self, token_type: TokenType) -> (r: bool)
        requires
            old(self).wf(),
        ensures
            final(self).wf(),
            final(self).tokens == old(self).tokens,
            r == check_at(old(self).tokens@, old(self).current as int, token_type),
            final(self).current == if r {
                old(self).current + 1
            } else {
                old(self).current as int
            },
    {
        if self.check(token_type) {
            self.advance();
            true
        } else {
            false
        }
    }

    /// A syntax error at the current token.
    fn parser_error(&self, message: &str) -> (r: Diagnostic)
        requires
            self.wf(),
        ensures
            r.line == self.tokens@[self.current as int].line,
            r.message@ == message@,
    {
        Diagnostic { line: self.tokens[self.current].line, message: String::from_str(message) }
    }

    fn operator_here(&self, level: usize) -> (r: bool)
        requires
            self.wf(),
        ensures
            r == operator_at(self.tokens@, level as nat, self.current as int),
    {
        if self.is_at_end() {
            return false;
        }
        let t = self.tokens[self.current].token_type;
        if level == 4 {
            t == TokenType::EqualEqual || t == TokenType::BangEqual
        } else if level == 3 {
            t == TokenType::Greater || t == TokenType::GreaterEqual || t == TokenType::Less || t
                == TokenType::LessEqual
        } else if level == 2 {
            t == TokenType::Minus || t == TokenType::Plus
        } else if level == 1 {
            t == TokenType::Slash || t == TokenType::Star
        } else {
            false
        }
    }

    fn primary(&mut self) -> (r: Result<Expr, Diagnostic>)
        requires
            old(self).wf(),
        ensures
            final(self).wf(),
            final(self).tokens == old(self).tokens,
            agrees(
                r,
                primary(old(self).tokens@, old(self).current as int),
                old(self).tokens@,
                old(self).current as int,
                final(self).current as int,
            ),
        decreases old(self).tokens@.len() - old(self).current, 0nat,
    {
        if self.match_token(TokenType::False) {
            return Ok(Expr::Literal { value: Object::Boolean(false) });
        }
        if self.match_token(TokenType::True) {
            return Ok(Expr::Literal { value: Object::Boolean(true) });
        }
        if self.match_token(TokenType::Nil) {
            return Ok(Expr::Literal { value: Object::Nil });
        }
        if self.check(TokenType::Number) || self.check(TokenType::String) {
            let token = self.peek();
            self.advance();
            let value = match &token.literal {
                Some(v) => v.duplicate(),
                None => Object::Nil,
            };
            return Ok(Expr::Literal { value });
        }
        if self.match_token(TokenType::LeftParen) {
            let expr = match self.binary(4) {
                Ok(e) => e,
                Err(d) => return Err(d),
            };
            if self.check(TokenType::RightParen) {
                self.advance();
                return Ok(Expr::Grouping { expression: Box::new(expr) });
            }
            return Err(self.parser_error("Expect ')' after expression."));
        }
        if self.check(TokenType::Identifier) {
            let name = self.peek();
            self.advance();
            return Ok(Expr::Variable { name });
        }
        Err(self.parser_error("Expect expression."))
    }

    fn unary(&mut self) -> (r: Result<Expr, Diagnostic>)
        requires
            old(self).wf(),
        ensures
            final(self).wf(),
            final(self).tokens == old(self).tokens,
            agrees(
                r,
                unary(old(self).tokens@, old(self).current as int),
                old(self).tokens@,
                old(self).current as int,
                final(self).current as int,
            ),
        decreases old(self).tokens@.len() - old(self).current, 1nat,
    {
        if self.check(TokenType::Bang) || self.check(TokenType::Minus) {
            let operator = self.peek();
            self.advance();
            return match self.unary() {
                Ok(right) => Ok(Expr::Unary { operator, right: Box::new(right) }),
                Err(d) => Err(d),
            };
        }
        self.primary()
    }

    fn operand(&mut self, level: usize) -> (r: Result<Expr, Diagnostic>)
        requires
            old(self).wf(),
            1 <= level <= 4,
        ensures
            final(self).wf(),
            final(self).tokens == old(self).tokens,
            agrees(
                r,
                operand(old(self).tokens@, level as nat, old(self).current as int),
                old(self).tokens@,
                old(self).current as int,
                final(self).current as int,
            ),
        decreases old(self).tokens@.len() - old(self).current, 2 * level + 2,
    {
        if level <= 1 {
            self.unary()
        } else {
            self.binary(level - 1)
        }
    }

    /// One binary level: operands joined by the level's operators, folded
    /// to the left by the loop.
    fn binary(&mut self, level: usize) -> (r: Result<Expr, Diagnostic>)
        requires
            old(self).wf(),
            1 <= level <= 4,
        ensures
            final(self).wf(),
            final(self).tokens == old(self).tokens,
            agrees(
                r,
                binary(old(self).tokens@, level as nat, old(self).current as int),
                old(self).tokens@,
                old(self).current as int,
                final(self).current as int,
            ),
        decreases old(self).tokens@.len() - old(self).current, 2 * level + 3,
    {
        let ghost ts = self.tokens@;
        let ghost p = self.current as int;
        let mut expr = match self.operand(level) {
            Ok(e) => e,
            Err(d) => return Err(d),
        };
        while self.operator_here(level)
            invariant
                self.wf(),
                self.tokens@ == ts,
                self.tokens == old(self).tokens,
                p == old(self).current,
                p <= self.current,
                1 <= level <= 4,
                binary(ts, level as nat, p) == shift(
                    fold(ts, level as nat, expr, self.current as int),
                    (self.current - p) as nat,
                ),
            decreases ts.len() - self.current,
        {
            let ghost c = self.current as int;
            let ghost before = expr;
            let operator = self.peek();
            self.advance();
            let right = match self.operand(level) {
                Ok(e) => e,
                Err(d) => return Err(d),
            };
            expr = Expr::Binary { left: Box::new(expr), operator, right: Box::new(right) };
            assert(fold(ts, level as nat, before, c) == shift(
                fold(ts, level as nat, expr, self.current as int),
                (self.current - c) as nat,
            ));
        }
        Ok(expr)
    }

    fn expression(&mut self) -> (r: Result<Expr, Diagnostic>)
        requires
            old(self).wf(),
        ensures
            final(self).wf(),
            final(self).tokens == old(self).tokens,
            agrees(
                r,
                expression(old(self).tokens@, old(self).current as int),
                old(self).tokens@,
                old(self).current as int,
                final(self).current as int,
            ),
    {
        self.binary(4)
    }

    /// An expression closed by `;`: a print statement when `print` holds,
    /// else an expression statement.
    fn closed_statement(&mut self, print: bool) -> (r: Result<Stmt, Diagnostic>)
        requires
            old(self).wf(),
        ensures
            final(self).wf(),
            final(self).tokens == old(self).tokens,
            agrees(
                r,
                closed_statement(old(self).tokens@, old(self).current as int, print),
                old(self).tokens@,
                old(self).current as int,
                final(self).current as int,
            ),
    {
        let value = match self.expression() {
            Ok(e) => e,
            Err(d) => return Err(d),
        };
        if !self.check(TokenType::Semicolon) {
            return Err(self.parser_error("Expect ; after value."));
        }
        self.advance();
        if print {
            Ok(Stmt::Print { expression: value })
        } else {
            Ok(Stmt::Expression { expression: value })
        }
    }

    fn statement(&mut self) -> (r: Result<Stmt, Diagnostic>)
        requires
            old(self).wf(),
        ensures
            final(self).wf(),
            final(self).tokens == old(self).tokens,
            agrees(
                r,
                statement(old(self).tokens@, old(self).current as int),
                old(self).tokens@,
                old(self).current as int,
                final(self).current as int,
            ),
    {
        if self.match_token(TokenType::Print) {
            return self.closed_statement(true);
        }
        self.closed_statement(false)
    }

    /// A declaration after its `var`; without `= expression` the
    /// initializer is the `nil` literal.
    fn var_declaration(&mut self) -> (r: Result<Stmt, Diagnostic>)
        requires
            old(self).wf(),
        ensures
            final(self).wf(),
            final(self).tokens == old(self).tokens,
            agrees(
                r,
                var_declaration(old(self).tokens@, old(self).current as int),
                old(self).tokens@,
                old(self).current as int,
                final(self).current as int,
            ),
    {
        if !self.check(TokenType::Identifier) {
            return Err(self.parser_error("Expect variable name."));
        }
        let name = self.peek();
        self.advance();
        let mut initializer = Expr::Literal { value: Object::Nil };
        if self.match_token(TokenType::Equal) {
            initializer = match self.expression() {
                Ok(e) => e,
                Err(d) => return Err(d),
            };
        }
        if !self.check(TokenType::Semicolon) {
            return Err(self.parser_error("Expect ';' after variable declaration."));
        }
        self.advance();
        Ok(Stmt::Var { name, initializer })
    }

    /// Skips to where the next declaration may start, after the one that
    /// started at `start` failed here: up to just after a `;` or to a token
    /// that begins a statement, and past at least one token.
    fn synchronize(&mut self, start: usize)
        requires
            old(self).wf(),
            start <= old(self).current,
        ensures
            final(self).wf(),
            final(self).tokens == old(self).tokens,
            final(self).current == synchronize(
                old(self).tokens@,
                start as int,
                old(self).current as int,
            ),
    {
        let ghost ts = self.tokens@;
        let ghost q = self.current as int;
        if self.current == start {
            if self.is_at_end() {
                return;
            }
            self.advance();
        }
        while !self.is_at_end()
            invariant
                self.wf(),
                self.tokens == old(self).tokens,
                self.tokens@ == ts,
                q == old(self).current,
                start < self.current,
                q <= self.current,
                synchronize(ts, start as int, q) == sync_scan(ts, self.current as int),
            decreases ts.len() - self.current,
        {
            let t = self.tokens[self.current - 1].token_type;
            if t == TokenType::Semicolon {
                return;
            }
            let next = self.tokens[self.current].token_type;
            if next == TokenType::Class || next == TokenType::Fun || next == TokenType::Var || next
                == TokenType::For || next == TokenType::If || next == TokenType::While || next
                == TokenType::Print || next == TokenType::Return {
                return;
            }
            self.advance();
        }
    }

    /// One declaration; after a syntax error the parser synchronises
    /// before returning the error.
    fn declaration(&mut self) -> (r: Result<Stmt, Diagnostic>)
        requires
            old(self).wf(),
        ensures
            final(self).wf(),
            final(self).tokens == old(self).tokens,
            ({
                let ts = old(self).tokens@;
                let p = old(self).current as int;
                match declaration(ts, p) {
                    Parse::Parsed(s, u) => r == Ok::<Stmt, Diagnostic>(s) && final(self).current
                        == p + u,
                    Parse::Failed(u, m) => final(self).current == synchronize(ts, p, p + u) && match r {
                        Ok(_) => false,
                        Err(d) => d.line == ts[p + u].line && d.message@ == m,
                    },
                }
            }),
    {
        let start = self.current;
        let response = if self.match_token(TokenType::Var) {
            self.var_declaration()
        } else {
            self.statement()
        };
        if response.is_err() {
            self.synchronize(start);
        }
        response
    }

    /// Parses declarations up to the end of the stream. A declaration with
    /// a syntax error adds a diagnostic and no statement, and parsing goes
    /// on after it.
    pub fn parse(&mut self) -> (r: (Vec<Stmt>, Vec<Diagnostic>))
        requires
            old(self).wf(),
        ensures
            final(self).wf(),
            final(self).tokens == old(self).tokens,
            r.0@ == program(old(self).tokens@, old(self).current as int).0,
            diagnostic_views(r.1@) == program(old(self).tokens@, old(self).current as int).1,
    {
        let ghost ts = self.tokens@;
        let ghost p0 = self.current as int;
        let mut statements: Vec<Stmt> = Vec::new();
        let mut diagnostics: Vec<Diagnostic> = Vec::new();
        while !self.is_at_end()
            invariant
                self.wf(),
                self.tokens == old(self).tokens,
                self.tokens@ == ts,
                p0 == old(self).current,
                statements@ + program(ts, self.current as int).0 == program(ts, p0).0,
                diagnostic_views(diagnostics@) + program(ts, self.current as int).1 == program(
                    ts,
                    p0,
                ).1,
            decreases ts.len() - self.current,
        {
            let ghost p = self.current as int;
            let ghost before_s = statements@;
            let ghost before_d = diagnostic_views(diagnostics@);
            match self.declaration() {
                Ok(statement) => {
                    statements.push(statement);
                    assert(before_s + program(ts, p).0 =~= statements@ + program(
                        ts,
                        self.current as int,
                    ).0);
                },
                Err(d) => {
                    diagnostics.push(d);
                    proof {
                        let u = declaration(ts, p).used();
                        lemma_sync_scan(ts, p + u);
                        lemma_sync_scan(ts, p + u + 1);
                    }
                    assert(diagnostic_views(diagnostics@) =~= before_d.push(
                        (d.line, d.message@),
                    ));
                    assert(before_d + program(ts, p).1 =~= diagnostic_views(diagnostics@)
                        + program(ts, self.current as int).1);
                },
            }
        }
        assert(statements@ + program(ts, self.current as int).0 =~= statements@);
        assert(diagnostic_views(diagnostics@) + program(ts, self.current as int).1
            =~= diagnostic_views(diagnostics@));
        (statements, diagnostics)
    }
}

} // verus!
