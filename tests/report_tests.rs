use minic::lexer::{LexerError, Scanner};
use minic::report::{build_test_args, format_minimal_output, format_verbose_output, split_define};
use minic::Position;

#[test]
fn define_arguments_split_at_first_equals() {
    let (name, value) = split_define("MAX=100");
    assert_eq!(name, "MAX");
    assert_eq!(value, "100");
    let (name, value) = split_define("A=b=c");
    assert_eq!(name, "A");
    assert_eq!(value, "b=c");
    let (name, value) = split_define("DEBUG");
    assert_eq!(name, "DEBUG");
    assert_eq!(value, "");
}

#[test]
fn minimal_report() {
    assert_eq!(format_minimal_output(&[]), "OK\n");
    let errors = vec![LexerError::UnterminatedString {
        position: Position::new(3, 4),
    }];
    assert_eq!(
        format_minimal_output(&errors),
        "ERROR: 3:4: Незавершенная строковая константа\n"
    );
}

#[test]
fn verbose_report() {
    let mut scanner = Scanner::new("if x\n+ 1 @");
    let (tokens, errors) = scanner.scan_all();
    let text = format_verbose_output(&tokens, &errors, &scanner);
    assert!(text.starts_with("=== ДЕТАЛЬНЫЙ ОТЧЕТ ЛЕКСИЧЕСКОГО АНАЛИЗА ===\n\nСТАТИСТИКА:\n  Всего токенов: 5\n  Корректных токенов: 4\n  Ошибок: 1\n  Позиция завершения: 2\n\n"));
    assert!(text.contains("ОШИБКИ:\n  1. 2:5: Неожиданный символ '@'\n\n"));
    assert!(text.contains("    1: 1:1 KW_IF \"if\"\n"));
    assert!(text.ends_with("  Ключевые слова: 1\n  Литералы: 1\n  Операторы: 1\n  Разделители: 0\n"));
}

#[test]
fn test_runner_arguments() {
    assert_eq!(build_test_args(true, false, false, None), vec!["--lib".to_string()]);
    assert_eq!(
        build_test_args(false, true, true, Some("scanner".to_string())),
        vec!["--tests".to_string(), "--coverage".to_string(), "scanner".to_string()]
    );
    assert!(build_test_args(true, true, false, None).is_empty());
}

