use rlox::environment::Environment;
use rlox::errors::{report, rlox_error, RLoxError};
use rlox::interpreter::{binary_value, display_value, is_equal, is_truthy, unary_value, Interpreter};
use rlox::parser::Parser;
use rlox::rlox::{RLox, RunReport, Session};
use rlox::scanner::Scanner;
use rlox::ast::stmt::Stmt;
use rlox::tokens::{Object, Token, TokenType};

fn num(x: f64) -> Object {
    Object::Number(x.to_bits())
}

fn token(token_type: TokenType, lexeme: &str) -> Token {
    Token { token_type, lexeme: lexeme.to_string(), literal: None, line: 1 }
}

/// Evaluates one expression in an empty environment.
fn eval(source: &str) -> Result<Object, RLoxError> {
    let mut scanner = Scanner::new(format!("{};", source));
    scanner.scan_tokens();
    let mut parser = Parser::new(scanner.tokens);
    let (statements, diagnostics) = parser.parse();
    assert!(diagnostics.is_empty(), "{:?}", diagnostics);
    let interpreter = Interpreter::new();
    match &statements[0] {
        Stmt::Expression { expression } => interpreter.evaluate(expression),
        other => panic!("not an expression statement: {:?}", other),
    }
}

fn run(source: &str) -> RunReport {
    RLox::run(source.to_string())
}

#[test]
fn precedence_of_arithmetic() {
    assert_eq!(eval("1 + 2 * 3").unwrap(), num(7.0));
}

#[test]
fn subtraction_is_left_associative() {
    assert_eq!(eval("8 - 4 - 2").unwrap(), num(2.0));
}

#[test]
fn grouping_overrides_precedence() {
    assert_eq!(eval("(1 + 2) * 3").unwrap(), num(9.0));
}

#[test]
fn arithmetic_follows_binary64() {
    assert_eq!(eval("0.1 + 0.2").unwrap(), num(0.1 + 0.2));
    assert_eq!(eval("3 * 4").unwrap(), eval("4 * 3").unwrap());
    assert_eq!(eval("1 - 3").unwrap(), num(-2.0));
    assert_eq!(eval("3 - 1").unwrap(), num(2.0));
    assert_eq!(eval("1 / 4").unwrap(), num(0.25));
    assert_eq!(eval("4 / 1").unwrap(), num(4.0));
    assert_eq!(eval("-(2)").unwrap(), num(-2.0));
}

#[test]
fn division_by_zero_is_not_an_error() {
    assert_eq!(eval("1 / 0").unwrap(), num(f64::INFINITY));
    assert_eq!(eval("-1 / 0").unwrap(), num(f64::NEG_INFINITY));
    match eval("0 / 0").unwrap() {
        Object::Number(bits) => assert!(f64::from_bits(bits).is_nan()),
        other => panic!("not a number: {:?}", other),
    }
}

#[test]
fn truthiness_of_values() {
    assert_eq!(eval("!nil").unwrap(), Object::Boolean(true));
    assert_eq!(eval("!0").unwrap(), Object::Boolean(false));
    assert_eq!(eval("!false").unwrap(), Object::Boolean(true));
    assert_eq!(eval("!\"\"").unwrap(), Object::Boolean(false));
    assert!(is_truthy(&num(0.0)));
    assert!(!is_truthy(&Object::Nil));
}

#[test]
fn string_concatenation() {
    assert_eq!(eval("\"foo\" + \"bar\"").unwrap(), Object::String("foobar".to_string()));
}

#[test]
fn adding_a_string_and_a_number_is_a_type_mismatch() {
    match eval("\"foo\" + 1") {
        Err(RLoxError::TypeMismatch(operator, message)) => {
            assert_eq!(operator.lexeme, "+");
            assert_eq!(message, "Operands must be two numbers or two strings.");
        }
        other => panic!("expected a type mismatch: {:?}", other),
    }
}

#[test]
fn negating_a_string_is_a_type_mismatch() {
    match eval("-\"a\"") {
        Err(RLoxError::TypeMismatch(_, message)) => assert_eq!(message, "Operand must be a number."),
        other => panic!("expected a type mismatch: {:?}", other),
    }
}

#[test]
fn comparing_non_numbers_is_a_type_mismatch() {
    match eval("true < 1") {
        Err(RLoxError::TypeMismatch(_, message)) => assert_eq!(message, "Operands must be numbers."),
        other => panic!("expected a type mismatch: {:?}", other),
    }
}

#[test]
fn comparisons_of_numbers() {
    assert_eq!(eval("1 < 2").unwrap(), Object::Boolean(true));
    assert_eq!(eval("2 <= 2").unwrap(), Object::Boolean(true));
    assert_eq!(eval("1 > 2").unwrap(), Object::Boolean(false));
    assert_eq!(eval("2 >= 3").unwrap(), Object::Boolean(false));
    assert_eq!(eval("-1 < -0.5").unwrap(), Object::Boolean(true));
    assert_eq!(eval("0/0 < 1").unwrap(), Object::Boolean(false));
}

#[test]
fn equality_across_variants_is_false_not_an_error() {
    assert_eq!(eval("1 == \"1\"").unwrap(), Object::Boolean(false));
    assert_eq!(eval("nil == false").unwrap(), Object::Boolean(false));
    assert_eq!(eval("nil != 0").unwrap(), Object::Boolean(true));
    assert_eq!(eval("nil == nil").unwrap(), Object::Boolean(true));
    assert_eq!(eval("\"a\" == \"a\"").unwrap(), Object::Boolean(true));
    assert_eq!(eval("0 == -0").unwrap(), Object::Boolean(true));
    assert_eq!(eval("0/0 == 0/0").unwrap(), Object::Boolean(false));
    assert!(!is_equal(&Object::Boolean(true), &num(1.0)));
}

#[test]
fn operators_that_no_parse_produces_are_reported() {
    let dot = token(TokenType::Dot, ".");
    assert_eq!(binary_value(&dot, num(1.0), num(2.0)), Err(RLoxError::UnknownOperator(dot.clone())));
    assert_eq!(unary_value(&dot, num(1.0)), Err(RLoxError::UnknownOperator(dot.clone())));
    let minus = token(TokenType::Minus, "-");
    assert_eq!(unary_value(&minus, num(1.5)), Ok(num(-1.5)));
}

#[test]
fn display_forms() {
    assert_eq!(display_value(&Object::Nil), "");
    assert_eq!(display_value(&Object::Boolean(true)), "true");
    assert_eq!(display_value(&num(3.0)), "3");
    assert_eq!(display_value(&num(-42.0)), "-42");
    assert_eq!(display_value(&num(-0.0)), "-0");
    assert_eq!(display_value(&num(2.5)), "2.5");
    assert_eq!(display_value(&num(f64::INFINITY)), "inf");
    assert_eq!(display_value(&num(f64::NAN)), "NaN");
    assert_eq!(display_value(&Object::String("hi".to_string())), "hi");
}

#[test]
fn variable_round_trip() {
    let report = run("var x = 10; print x;");
    assert_eq!(report.output, vec!["10".to_string()]);
    assert!(report.error.is_none());
    assert!(report.diagnostics.is_empty());
}

#[test]
fn undefined_variable_stops_the_run() {
    let report = run("print 1; print y; print 2;");
    assert_eq!(report.output, vec!["1".to_string()]);
    match report.error {
        Some(RLoxError::UndefinedVariable(name)) => assert_eq!(name.lexeme, "y"),
        other => panic!("expected an undefined variable: {:?}", other),
    }
}

#[test]
fn redeclaration_overwrites() {
    let report = run("var x = 1; var x = 2; print x;");
    assert_eq!(report.output, vec!["2".to_string()]);
}

#[test]
fn declaration_defaults_to_nil() {
    let report = run("var a; print a; print a == nil;");
    assert_eq!(report.output, vec!["".to_string(), "true".to_string()]);
}

#[test]
fn parser_recovery_still_runs_the_valid_statement() {
    let report = run("print 1\nprint 2;");
    assert!(!report.diagnostics.is_empty());
    assert_eq!(report.output, vec!["2".to_string()]);
    let report = run("var = 5; print \"after\";");
    assert_eq!(report.diagnostics.len(), 1);
    assert_eq!(report.output, vec!["after".to_string()]);
}

#[test]
fn lexical_and_syntax_diagnostics_come_in_order() {
    let report = run("@\nprint ;");
    let messages: Vec<&str> = report.diagnostics.iter().map(|d| d.message.as_str()).collect();
    assert_eq!(messages, vec!["Unexpected character @", "Expect expression."]);
    assert_eq!(report.diagnostics[1].line, 2);
}

#[test]
fn printing_strings_and_fractions() {
    let report = run("print \"a\" + \"b\"; print 1 / 2; print true;");
    assert_eq!(report.output, vec!["ab".to_string(), "0.5".to_string(), "true".to_string()]);
}

#[test]
fn error_report_lines() {
    assert_eq!(report(12, "at end", "Expect expression."), "[Line 12] Error at end: Expect expression.");
    assert_eq!(rlox_error(3, "Unterminated string."), "[Line 3] Error : Unterminated string.");
    let name = Token { token_type: TokenType::Identifier, lexeme: "y".to_string(), literal: None, line: 4 };
    assert_eq!(RLoxError::UndefinedVariable(name).text(), "[Line 4] Error : Undefined variable 'y'.");
}

#[test]
fn environment_binds_and_overwrites() {
    let mut env = Environment::new();
    let name = token(TokenType::Identifier, "a");
    assert_eq!(env.get(&name), Err(RLoxError::UndefinedVariable(name.clone())));
    env.define("a".to_string(), num(1.0));
    env.define("b".to_string(), Object::Nil);
    env.define("a".to_string(), Object::String("s".to_string()));
    assert_eq!(env.get(&name), Ok(Object::String("s".to_string())));
}

#[test]
fn session_choice() {
    assert_eq!(RLox { path: Some("a.lox".to_string()) }.init(), Session::File("a.lox".to_string()));
    assert_eq!(RLox { path: None }.init(), Session::Prompt);
    assert!(RLox::is_quit("quit"));
    assert!(!RLox::is_quit("quit;"));
}
