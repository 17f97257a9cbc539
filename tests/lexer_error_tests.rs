use minic::common::Position;
use minic::lexer::{ErrorRecovery, LexerError, LexerErrorExt};

#[test]
fn test_error_display() {
    let pos = Position::new(1, 5);

    let error = LexerError::UnexpectedCharacter {
        position: pos,
        character: '@',
    };

    assert_eq!(error.to_string(), "1:5: Неожиданный символ '@'");
}

#[test]
fn test_error_recovery() {
    let mut recovery = ErrorRecovery::new();

    assert!(!recovery.is_recovered());
    assert_eq!(recovery.skipped_chars(), 0);

    recovery.skip_char();
    assert_eq!(recovery.skipped_chars(), 1);

    let pos = Position::new(1, 1);
    recovery.mark_recovered(pos);
    assert!(recovery.is_recovered());
    assert_eq!(recovery.last_error_position(), Some(pos));

    recovery.reset();
    assert!(!recovery.is_recovered());
    assert_eq!(recovery.skipped_chars(), 0);
    assert_eq!(recovery.last_error_position(), None);
}

#[test]
fn test_lexer_error_ext() {
    let pos = Position::new(2, 10);

    let error = LexerError::UnterminatedString { position: pos };

    assert_eq!(error.position(), pos);
    assert_eq!(error.user_message(), "Строковая константа не закрыта");
    assert_eq!(
        error.suggestion(),
        Some("Добавьте закрывающую кавычку \" в конце строки".to_string())
    );
}

#[test]
fn test_error_types() {
    let pos = Position::new(1, 1);

    let errors = vec![
        LexerError::UnexpectedCharacter {
            position: pos,
            character: '#',
        },
        LexerError::UnterminatedString { position: pos },
        LexerError::InvalidNumber {
            position: pos,
            lexeme: "123.".to_string(),
        },
        LexerError::IdentifierTooLong { position: pos },
        LexerError::UnterminatedComment { position: pos },
        LexerError::InvalidEscapeSequence {
            position: pos,
            sequence: "\\z".to_string(),
        },
        LexerError::EmptyInput { position: pos },
    ];

    for error in errors {
        assert!(error.to_string().contains(&pos.to_string()));
    }
}

#[test]
fn error_ext_through_the_trait() {
    let error = LexerError::InvalidNumber {
        position: Position::new(4, 2),
        lexeme: "1.".to_string(),
    };
    assert_eq!(LexerErrorExt::position(&error), Position::new(4, 2));
    assert_eq!(LexerErrorExt::user_message(&error), "Некорректное число '1.'");
    assert_eq!(
        LexerErrorExt::suggestion(&error),
        Some("Исправьте формат числа (например, 123 или 123.45)".to_string())
    );
    assert_eq!(error.to_string(), "4:2: Некорректный числовой формат: '1.'");
}

#[test]
fn recovery_debug_info() {
    let mut recovery = ErrorRecovery::default();
    assert_eq!(recovery.debug_info(), "Ошибок восстановления не было");
    recovery.skip_chars(3);
    recovery.mark_recovered(Position::new(2, 7));
    assert_eq!(
        recovery.debug_info(),
        "Восстановление после ошибки на позиции 2:7, пропущено символов: 3"
    );
}
