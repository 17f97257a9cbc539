use minic::common::TokenKind;
use minic::lexer::{LexerError, Scanner};
use minic::Position;

#[test]
fn test_simple_assignment() {
    let source = "x = 42;";
    let mut scanner = Scanner::new(source);
    let mut tokens = Vec::new();

    loop {
        match scanner.next_token() {
            Ok(token) => {
                let is_eof = token.is_eof();
                tokens.push(token);
                if is_eof {
                    break;
                }
            }
            Err(e) => {
                panic!("Ошибка при сканировании: {}", e.to_string());
            }
        }
    }

    assert_eq!(tokens.len(), 5);

    assert_eq!(tokens[0].lexeme, "x");
    assert_eq!(tokens[1].lexeme, "=");
    assert_eq!(tokens[2].lexeme, "42");
    assert_eq!(tokens[3].lexeme, ";");
}

#[test]
fn test_unterminated_comment() {
    let source = "/* Unterminated comment";
    let mut scanner2 = Scanner::new(source);
    match scanner2.next_token() {
        Ok(token) => panic!("next_token вернул: {:?}", token.kind),
        Err(e) => assert_eq!(
            e,
            LexerError::UnterminatedComment {
                position: Position::new(1, 1)
            }
        ),
    }
    assert!(scanner2.next_token().unwrap().is_eof());
}

#[test]
fn positions_and_comments() {
    let mut scanner = Scanner::new("a /* x /* y */ z */\n  // note\r\n\tb");
    let a = scanner.next_token().unwrap();
    assert_eq!(a.position, Position::new(1, 1));
    let b = scanner.next_token().unwrap();
    assert_eq!(b.kind, TokenKind::Identifier("b".to_string()));
    assert_eq!(b.position, Position::new(3, 2));
    let end = scanner.next_token().unwrap();
    assert!(end.is_eof());
    assert_eq!(end.position, Position::new(3, 3));
    assert!(scanner.next_token().unwrap().is_eof());
    assert!(scanner.is_at_end());
    assert_eq!(scanner.get_line(), 3);
    assert_eq!(scanner.get_column(), 3);
}

#[test]
fn peek_does_not_advance() {
    let mut scanner = Scanner::from_preprocessed("<= x");
    let first = scanner.peek_token().unwrap();
    let again = scanner.peek_token().unwrap();
    assert_eq!(first.kind, TokenKind::LtEq);
    assert_eq!(again.kind, TokenKind::LtEq);
    let real = scanner.next_token().unwrap();
    assert_eq!(real.kind, TokenKind::LtEq);
    assert_eq!(real.lexeme, "<=");
    assert_eq!(scanner.next_token().unwrap().lexeme, "x");
}

#[test]
fn string_literal_keeps_its_text() {
    let mut scanner = Scanner::new("\"a b\\\"c\" ");
    let t = scanner.next_token().unwrap();
    assert_eq!(t.lexeme, "\"a b\\\"c\"");
    assert_eq!(t.as_string(), Some("a b\\\"c"));
}

#[test]
fn unterminated_string_at_line_break() {
    let mut scanner = Scanner::new("x \"abc\ny");
    let (tokens, errors) = scanner.scan_all();
    assert_eq!(
        errors,
        vec![LexerError::UnterminatedString {
            position: Position::new(1, 3)
        }]
    );
    let kinds: Vec<TokenKind> = tokens.into_iter().map(|t| t.kind).collect();
    assert_eq!(
        kinds,
        vec![
            TokenKind::Identifier("x".to_string()),
            TokenKind::Identifier("y".to_string()),
            TokenKind::EndOfFile
        ]
    );
}

#[test]
fn lone_ampersand_and_pipe_are_errors() {
    let mut scanner = Scanner::new("& |");
    let (tokens, errors) = scanner.scan_all();
    assert_eq!(tokens.len(), 1);
    assert_eq!(
        errors[0],
        LexerError::UnexpectedCharacter {
            position: Position::new(1, 1),
            character: '&'
        }
    );
    assert_eq!(errors.len(), 2);
}

#[test]
fn keywords_and_booleans() {
    let mut scanner = Scanner::new("true false while _x9");
    let (tokens, errors) = scanner.scan_all();
    assert!(errors.is_empty());
    assert_eq!(tokens[0].kind, TokenKind::BoolLiteral(true));
    assert_eq!(tokens[1].kind, TokenKind::BoolLiteral(false));
    assert_eq!(tokens[2].kind, TokenKind::KwWhile);
    assert_eq!(tokens[3].kind, TokenKind::Identifier("_x9".to_string()));
}

#[test]
fn minus_before_digit_is_a_number() {
    let mut scanner = Scanner::new("a -1 - 2 -= 3");
    let (tokens, errors) = scanner.scan_all();
    assert!(errors.is_empty());
    let kinds: Vec<TokenKind> = tokens.into_iter().map(|t| t.kind).collect();
    assert_eq!(
        kinds,
        vec![
            TokenKind::Identifier("a".to_string()),
            TokenKind::IntLiteral(-1),
            TokenKind::Minus,
            TokenKind::IntLiteral(2),
            TokenKind::MinusEq,
            TokenKind::IntLiteral(3),
            TokenKind::EndOfFile
        ]
    );
}
