//! Diagnostics for lexical and syntax errors, and the runtime error type.
use vstd::prelude::*;

use crate::text::{decimal, decimal_text};
use crate::tokens::Token;

verus! {

/// A lexical or syntax error, attributed to a source line.
#[derive(Debug, Clone, PartialEq)]
pub struct Diagnostic {
    pub line: u64,
    pub message: String,
}

/// An error that stops a run: raised while evaluating, never recovered.
#[derive(Debug, Clone, PartialEq)]
pub enum RLoxError {
    /// An operand of the wrong variant: the operator and what it needed.
    TypeMismatch(Token, String),
    /// A variable read with no binding: the name.
    UndefinedVariable(Token),
    /// An operator token that the grammar never puts in that node (only
    /// trees built by hand can hold one).
    UnknownOperator(Token),
}

/// The mathematical model of a runtime error.
pub enum Fault {
    TypeMismatch(Token, Seq<char>),
    UndefinedVariable(Token),
    UnknownOperator(Token),
}

impl View for RLoxError {
    type V = Fault;

    open spec fn view(&self) -> Fault {
        match self {
            RLoxError::TypeMismatch(t, m) => Fault::TypeMismatch(*t, m@),
            RLoxError::UndefinedVariable(t) => Fault::UndefinedVariable(*t),
            RLoxError::UnknownOperator(t) => Fault::UnknownOperator(*t),
        }
    }
}

/// The report line for an error: `[Line n] Error <location>: <message>`.
pub open spec fn report_text(line: u64, location: Seq<char>, message: Seq<char>) -> Seq<char> {
    "[Line "@ + decimal(line as nat) + "] Error "@ + location + ": "@ + message
}

/// The report line for an error at `line`.
pub fn report(line: u64, location: &str, message: &str) -> (r: String)
    ensures
        r@ == report_text(line, location@, message@),
{
    let head = String::from_str("[Line ");
    let number = decimal_text(line);
    head.concat(number.as_str()).concat("] Error ").concat(location).concat(": ").concat(message)
}

/// The report line for an error at `line`, with no location.
pub fn rlox_error(line: u64, message: &str) -> (r: String)
    ensures
        r@ == report_text(line, Seq::empty(), message@),
{
    proof {
        reveal_strlit("");
    }
    assert(""@ =~= Seq::<char>::empty());
    report(line, "", message)
}

impl Diagnostic {
    /// The report line for this diagnostic.
    pub fn text(&self) -> (r: String)
        ensures
            r@ == report_text(self.line, Seq::empty(), self.message@),
    {
        rlox_error(self.line, self.message.as_str())
    }
}

/// The message of an undefined-variable error.
pub open spec fn undefined_message(name: Seq<char>) -> Seq<char> {
    "Undefined variable '"@ + name + "'."@
}

impl RLoxError {
    /// The line that the error is attributed to.
    pub open spec fn spec_line(&self) -> u64 {
        match self {
            RLoxError::TypeMismatch(t, _) => t.line,
            RLoxError::UndefinedVariable(t) => t.line,
            RLoxError::UnknownOperator(t) => t.line,
        }
    }

    pub open spec fn spec_message(&self) -> Seq<char> {
        match self {
            RLoxError::TypeMismatch(_, m) => m@,
            RLoxError::UndefinedVariable(t) => undefined_message(t.lexeme@),
            RLoxError::UnknownOperator(t) => "Unknown operator "@ + t.lexeme@,
        }
    }

    /// The report line for this error.
    pub fn text(&self) -> (r: String)
        ensures
            r@ == report_text(self.spec_line(), Seq::empty(), self.spec_message()),
    {
        match self {
            RLoxError::TypeMismatch(t, m) => rlox_error(t.line, m.as_str()),
            RLoxError::UndefinedVariable(t) => {
                let m = String::from_str("Undefined variable '").concat(t.lexeme.as_str()).concat(
                    "'.",
                );
                rlox_error(t.line, m.as_str())
            },
            RLoxError::UnknownOperator(t) => {
                let m = String::from_str("Unknown operator ").concat(t.lexeme.as_str());
                rlox_error(t.line, m.as_str())
            },
        }
    }
}

} // verus!
