use minic::common::TokenKind;
use minic::lexer::{LexerError, Scanner};
use minic::preprocessor::{MacroTable, Preprocessor, PreprocessorError};
use minic::Position;

#[test]
fn single_delimiters_scan_to_two_tokens() {
    for d in ["(", ")", "{", "}", "[", "]", ";", ",", ":"] {
        let (tokens, errors) = Scanner::new(d).scan_all();
        assert!(errors.is_empty());
        assert_eq!(tokens.len(), 2);
        assert!(tokens[0].is_delimiter());
        assert_eq!(tokens[0].lexeme, d);
        assert!(tokens[1].is_eof());
    }
}

#[test]
fn operators_alone_scan_to_one_operator() {
    for op in [
        "+", "-", "*", "/", "%", "==", "!=", "<", "<=", ">", ">=", "&&", "||", "!", "=", "+=",
        "-=", "*=", "/=",
    ] {
        let (tokens, errors) = Scanner::new(op).scan_all();
        assert!(errors.is_empty());
        assert_eq!(tokens.len(), 2);
        assert!(tokens[0].is_operator());
        assert_eq!(tokens[0].lexeme, op);
        assert!(tokens[1].is_eof());
    }
}

#[test]
fn integer_bounds() {
    let (tokens, errors) = Scanner::new("2147483647").scan_all();
    assert!(errors.is_empty());
    assert_eq!(tokens[0].kind, TokenKind::IntLiteral(2147483647));
    let (tokens, errors) = Scanner::new("-2147483648").scan_all();
    assert!(errors.is_empty());
    assert_eq!(tokens[0].kind, TokenKind::IntLiteral(-2147483648));
    for bad in ["2147483648", "-2147483649"] {
        let (tokens, errors) = Scanner::new(bad).scan_all();
        assert_eq!(
            errors,
            vec![LexerError::InvalidNumber {
                position: Position::new(1, 1),
                lexeme: bad.to_string()
            }]
        );
        assert_eq!(tokens.len(), 1);
    }
    let (tokens, _) = Scanner::new("00042 99999999999999999999").scan_all();
    assert_eq!(tokens[0].kind, TokenKind::IntLiteral(42));
}

#[test]
fn float_literals() {
    for good in ["3.14", "-3.14", "0.0"] {
        let (tokens, errors) = Scanner::new(good).scan_all();
        assert!(errors.is_empty());
        assert_eq!(tokens[0].kind, TokenKind::FloatLiteral(good.to_string()));
        assert_eq!(tokens[0].as_float(), Some(good));
    }
    for bad in [".5", "123.", "12.34.56"] {
        let (_, errors) = Scanner::new(bad).scan_all();
        assert!(!errors.is_empty());
    }
    let (tokens, errors) = Scanner::new("12.34.56").scan_all();
    assert_eq!(tokens[0].kind, TokenKind::FloatLiteral("12.34".to_string()));
    assert_eq!(
        errors[0],
        LexerError::UnexpectedCharacter {
            position: Position::new(1, 6),
            character: '.'
        }
    );
    let (_, errors) = Scanner::new("123.").scan_all();
    assert_eq!(
        errors,
        vec![LexerError::InvalidNumber {
            position: Position::new(1, 1),
            lexeme: "123.".to_string()
        }]
    );
}

#[test]
fn identifier_length_limit() {
    let ok = "b".repeat(255);
    let (tokens, errors) = Scanner::new(&ok).scan_all();
    assert!(errors.is_empty());
    assert_eq!(tokens[0].kind, TokenKind::Identifier(ok.clone()));
    let long = "b".repeat(256);
    let (tokens, errors) = Scanner::new(&long).scan_all();
    assert_eq!(
        errors,
        vec![LexerError::IdentifierTooLong {
            position: Position::new(1, 1)
        }]
    );
    assert_eq!(tokens.len(), 1);
}

#[test]
fn recovery_collects_every_error() {
    let (tokens, errors) = Scanner::new("x = @; y = 42; z = #;").scan_all();
    assert_eq!(errors.len(), 2);
    assert_eq!(
        errors[0],
        LexerError::UnexpectedCharacter {
            position: Position::new(1, 5),
            character: '@'
        }
    );
    assert_eq!(
        errors[1],
        LexerError::UnexpectedCharacter {
            position: Position::new(1, 20),
            character: '#'
        }
    );
    assert!(tokens
        .iter()
        .any(|t| t.kind == TokenKind::Identifier("y".to_string())));
    assert!(tokens.iter().any(|t| t.kind == TokenKind::IntLiteral(42)));
    assert!(tokens.last().unwrap().is_eof());
    let (tokens, errors) = Scanner::new("@#$").scan_all();
    assert_eq!(tokens.len(), 1);
    assert_eq!(errors.len(), 2);
}

#[test]
fn macro_expansion_in_output() {
    let mut pp = Preprocessor::new("#define MAX 100\nint x = MAX;");
    let out = pp.process().unwrap();
    assert!(out.contains("int x = 100;"));
    assert!(!out.contains("MAX"));
    assert_eq!(out, "int x = 100;\n");
}

#[test]
fn macro_cycle_is_an_error() {
    let mut pp = Preprocessor::new("#define A B\n#define B A\nint x = A;");
    match pp.process() {
        Err(PreprocessorError::MacroRecursion { name }) => assert_eq!(name, "A"),
        other => panic!("unexpected: {:?}", other),
    }
    let mut table = MacroTable::new();
    table.define("SELF", "SELF + 1").unwrap();
    assert!(matches!(
        table.expand("SELF"),
        Err(PreprocessorError::MacroRecursion { .. })
    ));
    table.define("TWO", "ONE ONE").unwrap();
    table.define("ONE", "1").unwrap();
    assert_eq!(table.expand("TWO+x").unwrap(), "1 1+x");
    assert!(table.is_defined("ONE"));
    table.undefine("ONE");
    assert!(!table.is_defined("ONE"));
    assert_eq!(table.expand("TWO").unwrap(), "ONE ONE");
    assert!(matches!(
        table.define("9bad", "x"),
        Err(PreprocessorError::InvalidMacroName { .. })
    ));
}

#[test]
fn ifdef_else_branches_exclude_each_other() {
    let source = "#ifdef DEBUG\nyes\n#else\nno\n#endif\n";
    let mut on = Preprocessor::new(source);
    on.define("DEBUG", "").unwrap();
    on.preserve_line_numbers(false);
    assert_eq!(on.process().unwrap(), "yes\n");
    let mut off = Preprocessor::new(source);
    off.preserve_line_numbers(false);
    assert_eq!(off.process().unwrap(), "no\n");
    let mut kept = Preprocessor::new(source);
    assert_eq!(kept.process().unwrap(), "\nno\n");
    let mut neg = Preprocessor::new("#ifndef DEBUG\nyes\n#endif\n");
    neg.preserve_line_numbers(false);
    assert_eq!(neg.process().unwrap(), "yes\n");
}

#[test]
fn unterminated_constructs() {
    let mut pp = Preprocessor::new("/* unterminated");
    assert_eq!(
        pp.process().unwrap_err(),
        PreprocessorError::UnterminatedComment {
            position: Position::new(1, 1)
        }
    );
    let mut pp = Preprocessor::new("int a;\nint b; /* open\n more");
    assert_eq!(
        pp.process().unwrap_err(),
        PreprocessorError::UnterminatedComment {
            position: Position::new(2, 8)
        }
    );
    let (_, errors) = Scanner::new("a /* open").scan_all();
    assert_eq!(
        errors,
        vec![LexerError::UnterminatedComment {
            position: Position::new(1, 3)
        }]
    );
    let mut pp = Preprocessor::new("#ifdef X\nint a;\n");
    assert_eq!(
        pp.process().unwrap_err(),
        PreprocessorError::UnterminatedConditional {
            position: Position::new(1, 1)
        }
    );
}

#[test]
fn directive_errors() {
    let mut pp = Preprocessor::new("#endif");
    assert_eq!(
        pp.process().unwrap_err(),
        PreprocessorError::UnmatchedEndif {
            position: Position::new(1, 1)
        }
    );
    let mut pp = Preprocessor::new("a\n#else");
    assert_eq!(
        pp.process().unwrap_err(),
        PreprocessorError::UnmatchedElse {
            position: Position::new(2, 1)
        }
    );
    let mut pp = Preprocessor::new("  #define");
    assert_eq!(
        pp.process().unwrap_err(),
        PreprocessorError::InvalidDirective {
            position: Position::new(1, 1),
            directive: "#define".to_string(),
            reason: "Missing macro name".to_string()
        }
    );
    let mut pp = Preprocessor::new("#ifdef");
    assert_eq!(
        pp.process().unwrap_err().to_string(),
        "1:1: Некорректная директива препроцессора '#ifdef': Missing condition"
    );
    let mut pp = Preprocessor::new("#define 1X 2");
    assert_eq!(
        pp.process().unwrap_err().to_string(),
        "Некорректное имя макроса: '1X'"
    );
}

#[test]
fn other_directives_and_switches() {
    let mut pp = Preprocessor::new("#define N 7\n#pragma N\n# anything\n#undef N\nN");
    assert_eq!(pp.process().unwrap(), "#pragma 7\nN\n");
    let mut pp = Preprocessor::new("#ifdef X\na\n#endif\n");
    pp.enable_conditionals(false);
    assert_eq!(pp.process().unwrap(), "a\n");
    let mut pp = Preprocessor::new("#define V a   b  c\nV");
    assert_eq!(pp.process().unwrap(), "a b c\n");
    let mut pp = Preprocessor::new("x = 'a'; /* c */ y\r\nz");
    pp.preserve_line_numbers(false);
    assert_eq!(pp.process().unwrap(), "x = 'a';  y\nz\n");
}
