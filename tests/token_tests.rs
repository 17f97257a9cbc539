use minic::common::token::token_type_name;
use minic::common::{Position, Token, TokenKind};

#[test]
fn test_token_creation() {
    let pos = Position::new(1, 1);
    let token = Token::new(TokenKind::KwIf, "if".to_string(), pos);

    assert!(token.is_keyword());
    assert!(!token.is_literal());
    assert!(!token.is_operator());
    assert!(!token.is_delimiter());
    assert!(!token.is_eof());
}

#[test]
fn test_token_type_name() {
    assert_eq!(token_type_name(&TokenKind::KwIf), "KW_IF");
    assert_eq!(token_type_name(&TokenKind::IntLiteral(42)), "INT_LITERAL");
    assert_eq!(token_type_name(&TokenKind::Plus), "PLUS");
    assert_eq!(token_type_name(&TokenKind::LParen), "LPAREN");
}

#[test]
fn test_token_display() {
    let pos = Position::new(1, 1);

    let token1 = Token::new(TokenKind::KwIf, "if".to_string(), pos);
    assert_eq!(token1.to_string(), "1:1 KW_IF \"if\"");

    let token2 = Token::new(TokenKind::IntLiteral(42), "42".to_string(), pos);
    assert_eq!(token2.to_string(), "1:1 INT_LITERAL \"42\" 42");

    let token3 = Token::new(
        TokenKind::StringLiteral("hello".to_string()),
        "\"hello\"".to_string(),
        pos,
    );
    assert_eq!(token3.to_string(), "1:1 STRING_LITERAL \"\"hello\"\" hello");
}

#[test]
fn test_token_value_extraction() {
    let pos = Position::new(1, 1);

    let int_token = Token::new(TokenKind::IntLiteral(42), "42".to_string(), pos);
    assert_eq!(int_token.as_int(), Some(42));
    assert_eq!(int_token.as_float(), None);

    let float_token = Token::new(TokenKind::FloatLiteral("3.14".to_string()), "3.14".to_string(), pos);
    assert_eq!(float_token.as_float().map(|t| t.parse::<f64>().unwrap()), Some(3.14));
    assert_eq!(float_token.as_int(), None);

    let string_token = Token::new(
        TokenKind::StringLiteral("test".to_string()),
        "\"test\"".to_string(),
        pos,
    );
    assert_eq!(string_token.as_string(), Some("test"));

    let bool_token = Token::new(TokenKind::BoolLiteral(true), "true".to_string(), pos);
    assert_eq!(bool_token.as_bool(), Some(true));
}

#[test]
fn test_token_categories() {
    let pos = Position::new(1, 1);

    let kw_token = Token::new(TokenKind::KwIf, "if".to_string(), pos);
    assert!(kw_token.is_keyword());

    let lit_token = Token::new(TokenKind::IntLiteral(42), "42".to_string(), pos);
    assert!(lit_token.is_literal());

    let op_token = Token::new(TokenKind::Plus, "+".to_string(), pos);
    assert!(op_token.is_operator());

    let delim_token = Token::new(TokenKind::LParen, "(".to_string(), pos);
    assert!(delim_token.is_delimiter());

    let eof_token = Token::eof(pos);
    assert!(eof_token.is_eof());
}

#[test]
fn test_eof_token() {
    let pos = Position::new(10, 1);
    let eof = Token::eof(pos);

    assert!(eof.is_eof());
    assert!(eof.lexeme.is_empty());
    assert_eq!(eof.position, pos);
}

#[test]
fn token_display_of_other_literals() {
    let pos = Position::new(2, 3);
    let neg = Token::new(TokenKind::IntLiteral(-2147483648), "-2147483648".to_string(), pos);
    assert_eq!(neg.to_string(), "2:3 INT_LITERAL \"-2147483648\" -2147483648");
    let b = Token::new(TokenKind::BoolLiteral(false), "false".to_string(), pos);
    assert_eq!(b.to_string(), "2:3 BOOL_LITERAL \"false\" false");
    let f = Token::new(TokenKind::FloatLiteral("-0.5".to_string()), "-0.5".to_string(), pos);
    assert_eq!(f.to_string(), "2:3 FLOAT_LITERAL \"-0.5\" -0.5");
    let eof = Token::eof(pos);
    assert_eq!(eof.to_string(), "2:3 END_OF_FILE \"\"");
    assert_eq!(Token::new(TokenKind::Eq, "=".to_string(), pos).type_label(), "ASSIGN");
}
