use minilex::lexer::Scanner;
use minilex::parser::Parser;
use minilex::token::{Token, TokenType};

#[test]
fn token_new_keeps_its_fields() {
    let t = Token::new(TokenType::Plus, "+".to_string(), "".to_string(), 7);
    assert_eq!(t.token, TokenType::Plus);
    assert_eq!(t.lexeme, "+");
    assert_eq!(t.literal, "");
    assert_eq!(t.line, 7);
}

#[test]
fn get_keyword_matches_the_table() {
    let mut scanner = Scanner::new(String::new());
    assert_eq!(scanner.get_keyword("and".to_string()), Some(TokenType::And));
    assert_eq!(scanner.get_keyword("function".to_string()), Some(TokenType::FunctionType));
    assert_eq!(scanner.get_keyword("do".to_string()), Some(TokenType::Do));
    assert_eq!(scanner.get_keyword("number".to_string()), Some(TokenType::NumberType));
    assert_eq!(scanner.get_keyword("while".to_string()), None);
    assert_eq!(scanner.get_keyword("And".to_string()), None);
    assert_eq!(scanner.get_keyword("".to_string()), None);
}

#[test]
fn fresh_scanner_has_no_tokens_or_errors() {
    let mut scanner = Scanner::new("if".to_string());
    assert!(scanner.get_tokens().is_empty());
    assert!(scanner.get_errors().is_empty());
}

#[test]
fn parser_holds_the_token_sequence() {
    let mut scanner = Scanner::new("1 + 2".to_string());
    scanner.scan_tokens();
    let tokens = scanner.get_tokens().clone();
    let _parser = Parser::new(tokens);
}
