use minic::common::utils as common_utils;
use minic::common::{Position, Token, TokenKind};
use minic::lexer::LexerError;
use minic::utils::{escape_string, format_errors, format_tokens, is_keyword, is_valid_identifier};

#[test]
fn test_is_keyword() {
    assert!(is_keyword("if"));
    assert!(is_keyword("fn"));
    assert!(is_keyword("return"));
    assert!(!is_keyword("variable"));
    assert!(!is_keyword("IF"));
}

#[test]
fn test_is_valid_identifier() {
    assert!(is_valid_identifier("x"));
    assert!(is_valid_identifier("_x"));
    assert!(is_valid_identifier("x1"));
    assert!(is_valid_identifier("my_var"));
    assert!(is_valid_identifier("MAX_VALUE"));

    assert!(!is_valid_identifier(""));
    assert!(!is_valid_identifier("1x"));
    assert!(!is_valid_identifier("x-y"));
    assert!(!is_valid_identifier("x.y"));
    assert!(!is_valid_identifier("if"));

    let long_identifier = "a".repeat(256);
    assert!(!is_valid_identifier(&long_identifier));

    let max_length_identifier = "a".repeat(255);
    assert!(is_valid_identifier(&max_length_identifier));
}

#[test]
fn test_escape_string() {
    assert_eq!(escape_string("hello\nworld"), "hello\\nworld");
    assert_eq!(escape_string("tab\there"), "tab\\there");
    assert_eq!(escape_string("\"quoted\""), "\\\"quoted\\\"");
    assert_eq!(escape_string("back\\slash"), "back\\\\slash");
    assert_eq!(escape_string("normal"), "normal");
}

#[test]
fn test_format_functions() {
    let errors = vec![];
    assert!(format_errors(&errors).contains("Ошибок не обнаружено"));

    let tokens = vec![];
    assert!(format_tokens(&tokens).contains("Токены не найдены"));
}

#[test]
fn test_utils_is_keyword() {
    assert!(common_utils::is_keyword("if"));
    assert!(common_utils::is_keyword("fn"));
    assert!(common_utils::is_keyword("return"));
    assert!(!common_utils::is_keyword("x"));
    assert!(!common_utils::is_keyword("IF"));
}

#[test]
fn test_utils_is_valid_identifier() {
    assert!(common_utils::is_valid_identifier("x"));
    assert!(common_utils::is_valid_identifier("_x"));
    assert!(common_utils::is_valid_identifier("x1"));
    assert!(common_utils::is_valid_identifier("my_var"));
    assert!(common_utils::is_valid_identifier("MAX_VALUE"));

    assert!(!common_utils::is_valid_identifier(""));
    assert!(!common_utils::is_valid_identifier("1x"));
    assert!(!common_utils::is_valid_identifier("x-y"));
    assert!(!common_utils::is_valid_identifier("x.y"));
    assert!(!common_utils::is_valid_identifier("if"));

    let long_identifier = "a".repeat(256);
    assert!(!common_utils::is_valid_identifier(&long_identifier));

    let max_length_identifier = "a".repeat(255);
    assert!(common_utils::is_valid_identifier(&max_length_identifier));
}

#[test]
fn test_create_keyword_token() {
    let pos = Position::new(1, 1);

    let token = common_utils::create_keyword_token("if", pos).unwrap();
    assert_eq!(token.kind, TokenKind::KwIf);
    assert_eq!(token.lexeme, "if");

    let token = common_utils::create_keyword_token("x", pos);
    assert!(token.is_none());
}

#[test]
fn reports_with_entries() {
    let pos = Position::new(1, 5);
    let errors = vec![LexerError::UnexpectedCharacter {
        position: pos,
        character: '@',
    }];
    assert_eq!(
        format_errors(&errors),
        "Найдено 1 ошибок:\n  1. 1:5: Неожиданный символ '@'\n"
    );
    let tokens = vec![
        Token::new(TokenKind::Identifier("x".to_string()), "x".to_string(), Position::new(1, 1)),
        Token::eof(Position::new(1, 2)),
    ];
    assert_eq!(
        format_tokens(&tokens),
        "Найдено 2 токенов:\n    1: 1:1 IDENTIFIER \"x\"\n"
    );
    assert_eq!(
        common_utils::format_tokens_debug(&tokens),
        "  0: 1:1 IDENTIFIER \"x\"\n  1: 1:2 END_OF_FILE \"\"\n"
    );
    assert_eq!(escape_string("it's"), "it\\'s");
}
