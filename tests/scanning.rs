use rlox::errors::Diagnostic;
use rlox::scanner::Scanner;
use rlox::tokens::{Object, Token, TokenType};

fn scan(source: &str) -> (Vec<Token>, Vec<Diagnostic>) {
    let mut scanner = Scanner::new(source.to_string());
    scanner.scan_tokens();
    (scanner.tokens, scanner.diagnostics)
}

fn kinds(tokens: &[Token]) -> Vec<TokenType> {
    tokens.iter().map(|t| t.token_type).collect()
}

#[test]
fn every_stream_ends_with_one_eof() {
    for source in ["", "   ", "var x = 1;", "\"open", "@#", "1 + 2 // done", "/* a /* b */ c */"] {
        let (tokens, _) = scan(source);
        assert_eq!(tokens.last().unwrap().token_type, TokenType::Eof);
        assert_eq!(tokens.iter().filter(|t| t.token_type == TokenType::Eof).count(), 1);
    }
}

#[test]
fn empty_source_gives_only_eof_on_line_one() {
    let (tokens, diagnostics) = scan("");
    assert_eq!(tokens.len(), 1);
    assert_eq!(tokens[0].line, 1);
    assert_eq!(tokens[0].lexeme, "");
    assert!(diagnostics.is_empty());
}

#[test]
fn one_and_two_character_operators() {
    let (tokens, _) = scan("! != = == < <= > >= ( ) { } , . - + ; * /");
    assert_eq!(
        kinds(&tokens),
        vec![
            TokenType::Bang,
            TokenType::BangEqual,
            TokenType::Equal,
            TokenType::EqualEqual,
            TokenType::Less,
            TokenType::LessEqual,
            TokenType::Greater,
            TokenType::GreaterEqual,
            TokenType::LeftParen,
            TokenType::RightParen,
            TokenType::LeftBrace,
            TokenType::RightBrace,
            TokenType::Comma,
            TokenType::Dot,
            TokenType::Minus,
            TokenType::Plus,
            TokenType::Semicolon,
            TokenType::Star,
            TokenType::Slash,
            TokenType::Eof,
        ]
    );
    assert_eq!(tokens[1].lexeme, "!=");
}

#[test]
fn number_literals_carry_their_value() {
    let (tokens, _) = scan("12.5 7");
    assert_eq!(tokens[0].token_type, TokenType::Number);
    assert_eq!(tokens[0].lexeme, "12.5");
    assert_eq!(tokens[0].literal, Some(Object::Number(12.5f64.to_bits())));
    assert_eq!(tokens[1].literal, Some(Object::Number(7.0f64.to_bits())));
}

#[test]
fn trailing_dot_is_not_part_of_a_number() {
    let (tokens, _) = scan("1.");
    assert_eq!(kinds(&tokens), vec![TokenType::Number, TokenType::Dot, TokenType::Eof]);
    assert_eq!(tokens[0].lexeme, "1");
    assert_eq!(tokens[0].literal, Some(Object::Number(1.0f64.to_bits())));
}

#[test]
fn strings_may_span_lines() {
    let (tokens, diagnostics) = scan("\"a\nb\" x");
    assert!(diagnostics.is_empty());
    assert_eq!(tokens[0].token_type, TokenType::String);
    assert_eq!(tokens[0].lexeme, "\"a\nb\"");
    assert_eq!(tokens[0].literal, Some(Object::String("a\nb".to_string())));
    assert_eq!(tokens[0].line, 2);
    assert_eq!(tokens[1].line, 2);
}

#[test]
fn unterminated_string_is_reported_and_dropped() {
    let (tokens, diagnostics) = scan("x \"abc\ndef");
    assert_eq!(kinds(&tokens), vec![TokenType::Identifier, TokenType::Eof]);
    assert_eq!(diagnostics.len(), 1);
    assert_eq!(diagnostics[0].message, "Unterminated string.");
    assert_eq!(diagnostics[0].line, 2);
}

#[test]
fn unexpected_character_is_reported_and_scanning_goes_on() {
    let (tokens, diagnostics) = scan("1 @ 2");
    assert_eq!(kinds(&tokens), vec![TokenType::Number, TokenType::Number, TokenType::Eof]);
    assert_eq!(diagnostics.len(), 1);
    assert_eq!(diagnostics[0].message, "Unexpected character @");
    assert_eq!(diagnostics[0].line, 1);
    assert_eq!(diagnostics[0].text(), "[Line 1] Error : Unexpected character @");
}

#[test]
fn comments_are_skipped_and_their_lines_counted() {
    let (tokens, _) = scan("// one\n/* two /* nested */\n still */ x");
    assert_eq!(kinds(&tokens), vec![TokenType::Identifier, TokenType::Eof]);
    assert_eq!(tokens[0].lexeme, "x");
    assert_eq!(tokens[0].line, 3);
}

#[test]
fn reserved_words_and_identifiers() {
    let (tokens, _) = scan("and class else false for fun if nil or print return super this true var while _x1 varx");
    assert_eq!(
        kinds(&tokens),
        vec![
            TokenType::And,
            TokenType::Class,
            TokenType::Else,
            TokenType::False,
            TokenType::For,
            TokenType::Fun,
            TokenType::If,
            TokenType::Nil,
            TokenType::Or,
            TokenType::Print,
            TokenType::Return,
            TokenType::Super,
            TokenType::This,
            TokenType::True,
            TokenType::Var,
            TokenType::While,
            TokenType::Identifier,
            TokenType::Identifier,
            TokenType::Eof,
        ]
    );
    assert_eq!(tokens[16].lexeme, "_x1");
    assert_eq!(tokens[16].literal, None);
}

#[test]
fn lines_advance_on_each_newline() {
    let (tokens, _) = scan("a\n\nb\n");
    assert_eq!(tokens[0].line, 1);
    assert_eq!(tokens[1].line, 3);
    assert_eq!(tokens[2].line, 4);
}

#[test]
fn token_as_string_shows_type_lexeme_and_value() {
    let (tokens, _) = scan("12.5 \"hi\" x");
    assert_eq!(tokens[0].as_string(), "Number 12.5 12.5");
    assert_eq!(tokens[1].as_string(), "String \"hi\" hi");
    assert_eq!(tokens[2].as_string(), "Identifier x ");
    assert_eq!(tokens[3].as_string(), "Eof  ");
}
