//! The pipeline of one run: scan, parse, then execute in a fresh
//! environment.
use vstd::prelude::*;

use crate::errors::{Diagnostic, RLoxError};
use crate::interpreter::{run, texts, Interpreter};
use crate::parser::{program, well_formed, Parser};
use crate::scanner::{
    diagnostic_views, diagnostics_from, lemma_literals_present, token_views, tokens_from, Scanner,
};
use crate::tokens::{Token, TokenType, Value};

verus! {

/// What a run reports: the lexical and syntax diagnostics, in order; the
/// printed lines; and the runtime error that stopped execution, if any.
pub struct RunReport {
    pub diagnostics: Vec<Diagnostic>,
    pub output: Vec<String>,
    pub error: Option<RLoxError>,
}

/// `r` is the report of running the source text `s`: its tokens are the
/// scanned ones, the statements those the parser recovers from them, and
/// those statements run from no bindings.
pub open spec fn reports(s: Seq<char>, r: RunReport) -> bool {
    exists|ts: Seq<Token>|
        #![trigger token_views(ts)]
        {
            &&& token_views(ts) == tokens_from(s, 0)
            &&& well_formed(ts)
            &&& diagnostic_views(r.diagnostics@) == diagnostics_from(s, 0) + program(ts, 0).1
            &&& texts(r.output@) == run(program(ts, 0).0, Map::empty()).printed
            &&& match r.error {
                None => run(program(ts, 0).0, Map::empty()).fault is None,
                Some(e) => run(program(ts, 0).0, Map::empty()).fault == Some(e@),
            }
        }
}

/// How a session is driven.
#[derive(Debug, PartialEq, Eq)]
pub enum Session {
    /// Run the program in this file once.
    File(String),
    /// Read and run one line at a time until `quit`.
    Prompt,
}

/// The options of a session: an optional path to a program file.
pub struct RLox {
    pub path: Option<String>,
}

impl RLox {
    /// The session to drive: the file when a path was given, else the
    /// interactive prompt.
    pub fn init(self) -> (r: Session)
        ensures
            match self.path {
                Some(p) => r == Session::File(p),
                None => r == Session::Prompt,
            },
    {
        match self.path {
            Some(p) => Session::File(p),
            None => Session::Prompt,
        }
    }

    /// A prompt line (already trimmed) that ends the session.
    pub fn is_quit(line: &str) -> (r: bool)
        ensures
            r == (line@ == "quit"@),
    {
        String::from_str(line) == String::from_str("quit")
    }

    /// Scans, parses and executes `input`. Syntax errors drop the malformed
    /// declarations and the rest still runs; the first runtime error stops
    /// execution.
    pub fn run(input: String) -> (r: RunReport)
        requires
            input@.len() < u64::MAX,
        ensures
            reports(input@, r),
    {
        let ghost s = input@;
        let mut scanner = Scanner::new(input);
        scanner.scan_tokens();
        let ghost ts = scanner.tokens@;
        proof {
            lemma_literals_present(s, 0);
            assert forall|i: int|
                0 <= i < ts.len() && (ts[i].token_type == TokenType::Number || ts[i].token_type
                    == TokenType::String) implies #[trigger] ts[i].literal is Some by {
                assert(token_views(ts)[i] == ts[i]@);
                assert(tokens_from(s, 0)[i].literal is Some);
            }
        }
        let mut diagnostics = scanner.diagnostics;
        let mut parser = Parser::new(scanner.tokens);
        let (statements, mut syntax) = parser.parse();
        let ghost scan_d = diagnostic_views(diagnostics@);
        let ghost parse_d = diagnostic_views(syntax@);
        diagnostics.append(&mut syntax);
        assert(diagnostic_views(diagnostics@) =~= scan_d + parse_d);
        let mut interpreter = Interpreter::new();
        let (output, outcome) = interpreter.interpret(&statements);
        let error = match outcome {
            Ok(()) => None,
            Err(e) => Some(e),
        };
        let r = RunReport { diagnostics, output, error };
        assert(token_views(ts) == tokens_from(s, 0));
        r
    }
}

} // verus!
