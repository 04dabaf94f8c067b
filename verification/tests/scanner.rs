use minilex::lexer::Scanner;
use minilex::token::{LexError, Token, TokenType};

fn scan(source: &str) -> (Vec<Token>, Vec<LexError>) {
    let mut scanner = Scanner::new(source.to_string());
    scanner.scan_tokens();
    let tokens = scanner.get_tokens().clone();
    let errors = scanner.get_errors().clone();
    (tokens, errors)
}

fn kinds(tokens: &[Token]) -> Vec<TokenType> {
    tokens.iter().map(|t| t.token).collect()
}

#[test]
fn five_plus_five() {
    let (tokens, errors) = scan("5 + 5");
    assert!(errors.is_empty());
    assert_eq!(
        kinds(&tokens),
        vec![TokenType::Number, TokenType::Plus, TokenType::Number, TokenType::EOF]
    );
    assert_eq!(tokens[0].lexeme, "5");
    assert_eq!(tokens[0].literal, "5");
    assert_eq!(tokens[1].lexeme, "+");
    assert_eq!(tokens[2].lexeme, "5");
    assert_eq!(tokens[0].line, 1);
}

#[test]
fn identifier_less_equal_number() {
    let (tokens, errors) = scan("x <= 3");
    assert!(errors.is_empty());
    assert_eq!(
        kinds(&tokens),
        vec![TokenType::Identifier, TokenType::LessEqual, TokenType::Number, TokenType::EOF]
    );
    assert_eq!(tokens[0].lexeme, "x");
    assert_eq!(tokens[0].literal, "x");
    assert_eq!(tokens[1].lexeme, "<=");
    assert_eq!(tokens[2].lexeme, "3");
}

#[test]
fn string_literal_unquoted() {
    let (tokens, errors) = scan("\"hi\"");
    assert!(errors.is_empty());
    assert_eq!(kinds(&tokens), vec![TokenType::String, TokenType::EOF]);
    assert_eq!(tokens[0].lexeme, "\"hi\"");
    assert_eq!(tokens[0].literal, "hi");
    assert_eq!(tokens[0].line, 1);
}

#[test]
fn line_comment_produces_no_token() {
    let (tokens, errors) = scan("# note\n5");
    assert!(errors.is_empty());
    assert_eq!(kinds(&tokens), vec![TokenType::Number, TokenType::EOF]);
    assert_eq!(tokens[0].lexeme, "5");
    assert_eq!(tokens[0].line, 2);
}

#[test]
fn block_comment_produces_no_token_and_counts_lines() {
    let (tokens, errors) = scan("/* a\nb */5");
    assert!(errors.is_empty());
    assert_eq!(kinds(&tokens), vec![TokenType::Number, TokenType::EOF]);
    assert_eq!(tokens[0].lexeme, "5");
    assert_eq!(tokens[0].line, 2);
}

#[test]
fn unterminated_string_is_an_error_not_a_crash() {
    let (tokens, errors) = scan("\"abc");
    assert_eq!(kinds(&tokens), vec![TokenType::EOF]);
    assert_eq!(errors, vec![LexError::UnterminatedString { line: 1 }]);
}

#[test]
fn unterminated_block_comment_is_an_error() {
    let (tokens, errors) = scan("/* abc");
    assert_eq!(kinds(&tokens), vec![TokenType::EOF]);
    assert_eq!(errors, vec![LexError::UnterminatedBlockComment { line: 1 }]);
}

#[test]
fn unterminated_block_comment_line_is_where_it_began() {
    let (tokens, errors) = scan("5\n/* a\nb");
    assert_eq!(kinds(&tokens), vec![TokenType::Number, TokenType::EOF]);
    assert_eq!(errors, vec![LexError::UnterminatedBlockComment { line: 2 }]);
    // The embedded newline still advanced the line counter for the
    // end-of-input token.
    assert_eq!(tokens[1].line, 3);
}

#[test]
fn maximal_munch_compound_operators() {
    let (tokens, errors) = scan("!= == <= >= -> ::");
    assert!(errors.is_empty());
    assert_eq!(
        kinds(&tokens),
        vec![
            TokenType::BangEqual,
            TokenType::EqualEqual,
            TokenType::LessEqual,
            TokenType::GreaterEqual,
            TokenType::FnTypeImplication,
            TokenType::FnTypeAssigner,
            TokenType::EOF,
        ]
    );
    assert_eq!(tokens[0].lexeme, "!=");
    assert_eq!(tokens[4].lexeme, "->");
    assert_eq!(tokens[5].lexeme, "::");
}

#[test]
fn single_character_operators() {
    let (tokens, errors) = scan("{ } ( ) , . - + ; *");
    assert!(errors.is_empty());
    assert_eq!(
        kinds(&tokens),
        vec![
            TokenType::LeftBrace,
            TokenType::RightBrace,
            TokenType::LeftParen,
            TokenType::RightParen,
            TokenType::Comma,
            TokenType::Dot,
            TokenType::Minus,
            TokenType::Plus,
            TokenType::Semicolon,
            TokenType::Star,
            TokenType::EOF,
        ]
    );
}

#[test]
fn slash_alone_is_division() {
    let (tokens, errors) = scan("6 / 2");
    assert!(errors.is_empty());
    assert_eq!(
        kinds(&tokens),
        vec![TokenType::Number, TokenType::Slash, TokenType::Number, TokenType::EOF]
    );
}

#[test]
fn lone_bang_is_negation() {
    let (tokens, errors) = scan("! = < >");
    assert!(errors.is_empty());
    assert_eq!(
        kinds(&tokens),
        vec![
            TokenType::Bang,
            TokenType::Equal,
            TokenType::Less,
            TokenType::Greater,
            TokenType::EOF,
        ]
    );
}

#[test]
fn all_keywords_scan_as_their_kinds() {
    let source = "and else false fn if nil or print return true var match do end \
                  number float bool string function";
    let (tokens, errors) = scan(source);
    assert!(errors.is_empty());
    assert_eq!(
        kinds(&tokens),
        vec![
            TokenType::And,
            TokenType::Else,
            TokenType::False,
            TokenType::Fn,
            TokenType::If,
            TokenType::Nil,
            TokenType::Or,
            TokenType::Print,
            TokenType::Return,
            TokenType::True,
            TokenType::Var,
            TokenType::Match,
            TokenType::Do,
            TokenType::End,
            TokenType::NumberType,
            TokenType::FloatType,
            TokenType::BoolType,
            TokenType::StringType,
            TokenType::FunctionType,
            TokenType::EOF,
        ]
    );
    // Keyword tokens keep their lexeme and carry no literal payload.
    assert_eq!(tokens[0].lexeme, "and");
    assert_eq!(tokens[0].literal, "");
}

#[test]
fn keyword_prefix_is_an_identifier() {
    let (tokens, errors) = scan("andy iffy variable");
    assert!(errors.is_empty());
    assert_eq!(
        kinds(&tokens),
        vec![
            TokenType::Identifier,
            TokenType::Identifier,
            TokenType::Identifier,
            TokenType::EOF,
        ]
    );
    assert_eq!(tokens[0].lexeme, "andy");
    assert_eq!(tokens[0].literal, "andy");
}

#[test]
fn number_with_decimal_point() {
    let (tokens, errors) = scan("3.14");
    assert!(errors.is_empty());
    assert_eq!(kinds(&tokens), vec![TokenType::Number, TokenType::EOF]);
    assert_eq!(tokens[0].lexeme, "3.14");
    assert_eq!(tokens[0].literal, "3.14");
}

#[test]
fn trailing_dot_is_not_part_of_a_number() {
    let (tokens, errors) = scan("5.");
    assert!(errors.is_empty());
    assert_eq!(kinds(&tokens), vec![TokenType::Number, TokenType::Dot, TokenType::EOF]);
    assert_eq!(tokens[0].lexeme, "5");
}

#[test]
fn dot_without_following_digit_is_not_consumed() {
    let (tokens, errors) = scan("5.x");
    assert!(errors.is_empty());
    assert_eq!(
        kinds(&tokens),
        vec![TokenType::Number, TokenType::Dot, TokenType::Identifier, TokenType::EOF]
    );
}

#[test]
fn only_first_decimal_point_is_consumed() {
    let (tokens, errors) = scan("1.2.3");
    assert!(errors.is_empty());
    assert_eq!(
        kinds(&tokens),
        vec![TokenType::Number, TokenType::Dot, TokenType::Number, TokenType::EOF]
    );
    assert_eq!(tokens[0].lexeme, "1.2");
    assert_eq!(tokens[2].lexeme, "3");
}

#[test]
fn lone_colon_produces_nothing() {
    let (tokens, errors) = scan(":");
    assert!(errors.is_empty());
    assert_eq!(kinds(&tokens), vec![TokenType::EOF]);
}

#[test]
fn double_colon_at_end_of_input() {
    let (tokens, errors) = scan("a::");
    assert!(errors.is_empty());
    assert_eq!(
        kinds(&tokens),
        vec![TokenType::Identifier, TokenType::FnTypeAssigner, TokenType::EOF]
    );
}

#[test]
fn unexpected_character_is_collected_and_skipped() {
    let (tokens, errors) = scan("5 % 5");
    assert_eq!(
        kinds(&tokens),
        vec![TokenType::Number, TokenType::Number, TokenType::EOF]
    );
    assert_eq!(errors, vec![LexError::UnexpectedCharacter { character: '%', line: 1 }]);
}

#[test]
fn unexpected_character_reports_its_line() {
    let (tokens, errors) = scan("\n\n@");
    assert_eq!(kinds(&tokens), vec![TokenType::EOF]);
    assert_eq!(errors, vec![LexError::UnexpectedCharacter { character: '@', line: 3 }]);
}

#[test]
fn tab_is_not_whitespace_here() {
    let (_, errors) = scan("\t");
    assert_eq!(errors, vec![LexError::UnexpectedCharacter { character: '\t', line: 1 }]);
}

#[test]
fn string_spanning_lines_keeps_its_opening_line() {
    let (tokens, errors) = scan("\"a\nb\"");
    assert!(errors.is_empty());
    assert_eq!(kinds(&tokens), vec![TokenType::String, TokenType::EOF]);
    assert_eq!(tokens[0].literal, "a\nb");
    assert_eq!(tokens[0].line, 1);
    assert_eq!(tokens[1].line, 2);
}

#[test]
fn unicode_letters_scan_as_identifiers() {
    let (tokens, errors) = scan("héllo");
    assert!(errors.is_empty());
    assert_eq!(kinds(&tokens), vec![TokenType::Identifier, TokenType::EOF]);
    assert_eq!(tokens[0].lexeme, "héllo");
}

#[test]
fn empty_input_yields_only_end_of_input() {
    let (tokens, errors) = scan("");
    assert!(errors.is_empty());
    assert_eq!(kinds(&tokens), vec![TokenType::EOF]);
    assert_eq!(tokens[0].lexeme, "");
    assert_eq!(tokens[0].literal, "");
    assert_eq!(tokens[0].line, 1);
}

#[test]
fn newlines_advance_the_line_counter() {
    let (tokens, errors) = scan("\n\n5");
    assert!(errors.is_empty());
    assert_eq!(tokens[0].line, 3);
    assert_eq!(tokens[0].lexeme, "5");
}

#[test]
fn every_scan_ends_in_exactly_one_end_of_input() {
    for source in ["", "5 + 5", "\"abc", "/* x", "% $ @", "# only a comment"] {
        let (tokens, _) = scan(source);
        assert!(tokens.len() >= 1);
        assert_eq!(tokens[tokens.len() - 1].token, TokenType::EOF);
        for t in &tokens[..tokens.len() - 1] {
            assert_ne!(t.token, TokenType::EOF);
        }
    }
}
