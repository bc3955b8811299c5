use rlox::ast::expr::Expr;
use rlox::ast::print::AstPrinter;
use rlox::ast::stmt::Stmt;
use rlox::errors::Diagnostic;
use rlox::parser::Parser;
use rlox::scanner::Scanner;
use rlox::tokens::Object;

fn parse(source: &str) -> (Vec<Stmt>, Vec<Diagnostic>) {
    let mut scanner = Scanner::new(source.to_string());
    scanner.scan_tokens();
    let mut parser = Parser::new(scanner.tokens);
    parser.parse()
}

fn shape(source: &str) -> String {
    let (statements, diagnostics) = parse(&format!("{};", source));
    assert!(diagnostics.is_empty(), "{:?}", diagnostics);
    match &statements[0] {
        Stmt::Expression { expression } => AstPrinter {}.print(expression),
        other => panic!("not an expression statement: {:?}", other),
    }
}

#[test]
fn multiplication_binds_tighter_than_addition() {
    assert_eq!(shape("1 + 2 * 3"), "(+ 1 (* 2 3))");
}

#[test]
fn binary_operators_fold_to_the_left() {
    assert_eq!(shape("8 - 4 - 2"), "(- (- 8 4) 2)");
    assert_eq!(shape("1 == 2 != 3"), "(!= (== 1 2) 3)");
}

#[test]
fn grouping_overrides_precedence_in_the_tree() {
    assert_eq!(shape("(1 + 2) * 3"), "(* (group (+ 1 2)) 3)");
}

#[test]
fn unary_operators_nest_to_the_right() {
    assert_eq!(shape("!-x"), "(! (- x))");
    assert_eq!(shape("-1 < 2 == true"), "(== (< (- 1) 2) true)");
}

#[test]
fn declaration_without_initializer_holds_nil() {
    let (statements, diagnostics) = parse("var a;");
    assert!(diagnostics.is_empty());
    match &statements[0] {
        Stmt::Var { name, initializer } => {
            assert_eq!(name.lexeme, "a");
            assert_eq!(*initializer, Expr::Literal { value: Object::Nil });
        }
        other => panic!("not a declaration: {:?}", other),
    }
}

#[test]
fn malformed_declaration_is_reported_and_skipped() {
    let (statements, diagnostics) = parse("var = 1; print 2;");
    assert_eq!(diagnostics.len(), 1);
    assert_eq!(diagnostics[0].message, "Expect variable name.");
    assert_eq!(statements.len(), 1);
    assert!(matches!(statements[0], Stmt::Print { .. }));
}

#[test]
fn missing_semicolon_resynchronises_at_next_statement() {
    let (statements, diagnostics) = parse("print 1\nprint 2;");
    assert_eq!(diagnostics.len(), 1);
    assert_eq!(diagnostics[0].message, "Expect ; after value.");
    assert_eq!(diagnostics[0].line, 2);
    assert_eq!(statements.len(), 1);
}

#[test]
fn several_errors_in_one_source() {
    let (statements, diagnostics) = parse("print ;\nvar x = (1;\nprint 3;");
    let messages: Vec<&str> = diagnostics.iter().map(|d| d.message.as_str()).collect();
    assert_eq!(messages, vec!["Expect expression.", "Expect ')' after expression."]);
    assert_eq!(diagnostics[1].line, 2);
    assert_eq!(statements.len(), 1);
}

#[test]
fn missing_semicolon_after_declaration() {
    let (statements, diagnostics) = parse("var a = 1");
    assert_eq!(diagnostics.len(), 1);
    assert_eq!(diagnostics[0].message, "Expect ';' after variable declaration.");
    assert!(statements.is_empty());
}

#[test]
fn parenthesize_joins_parts_with_spaces() {
    assert_eq!(AstPrinter::parenthesize("+", vec!["1", "2"]), "(+ 1 2)");
    assert_eq!(AstPrinter::parenthesize("group", vec![]), "(group)");
}
