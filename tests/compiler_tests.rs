use minic::compiler;

#[test]
fn test_lexical_analysis() {
    let source = "x = 42;";
    let (tokens, errors) = compiler::lexical_analysis(source);

    assert!(errors.is_empty());
    assert!(!tokens.is_empty());
}

#[test]
fn test_is_lexically_valid() {
    assert!(compiler::is_lexically_valid("x = 42;"));
    assert!(!compiler::is_lexically_valid("x = @;"));
}

#[test]
fn analysis_report() {
    let (tokens, errors) = compiler::lexical_analysis("@ a");
    let report = compiler::format_lexical_analysis_result(&tokens, &errors);
    assert_eq!(
        report,
        "Найдено 1 ошибок:\n  1. 1:1: Неожиданный символ '@'\n\nНайдено 2 токенов:\n    1: 1:3 IDENTIFIER \"a\"\n"
    );
}
