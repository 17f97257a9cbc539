use minic::common::utils;
use minic::lexer::Scanner;

#[test]
fn test_identifier_edge_cases() {
    let max_len_id = "a".repeat(255);
    assert!(utils::is_valid_identifier(&max_len_id));

    let too_long_id = "a".repeat(256);
    assert!(!utils::is_valid_identifier(&too_long_id));

    assert!(utils::is_valid_identifier("_"));
    assert!(utils::is_valid_identifier("__"));
    assert!(utils::is_valid_identifier("_var"));
    assert!(utils::is_valid_identifier("var_"));
    assert!(utils::is_valid_identifier("var_name"));

    assert!(utils::is_valid_identifier("var1"));
    assert!(utils::is_valid_identifier("var123"));
    assert!(!utils::is_valid_identifier("1var"));
}

#[test]
fn test_number_edge_cases() {
    let test_cases = vec![
        ("0", true),
        ("123", true),
        ("-123", true),
        ("2147483647", true),
        ("-2147483648", true),
        ("2147483648", false),
        ("-2147483649", false),
        ("3.14", true),
        ("-3.14", true),
        ("0.0", true),
        (".5", false),
        ("123.", false),
        ("12.34.56", false),
    ];

    for (number_str, should_be_valid) in test_cases {
        let mut scanner = Scanner::new(number_str);
        let (_, errors) = scanner.scan_all();

        let is_valid = errors.is_empty();
        assert_eq!(
            is_valid, should_be_valid,
            "Число '{}': ожидалось {}, получено {}",
            number_str, should_be_valid, is_valid
        );
    }
}

#[test]
fn test_all_keywords() {
    let keywords = vec![
        "if", "else", "while", "for", "int", "float", "bool", "return", "void", "struct", "fn",
    ];

    for keyword in keywords {
        let mut scanner = Scanner::new(keyword);
        let (tokens, errors) = scanner.scan_all();

        assert!(
            errors.is_empty(),
            "Ключевое слово '{}' вызвало ошибку: {:?}",
            keyword,
            errors
        );
        assert_eq!(tokens.len(), 2);

        let token = &tokens[0];
        assert!(
            token.is_keyword(),
            "Токен '{}' не распознан как ключевое слово",
            keyword
        );
    }
}

#[test]
fn test_all_operators() {
    let operators = vec![
        "+", "-", "*", "/", "%", "==", "!=", "<", "<=", ">", ">=", "&&", "||", "!", "=", "+=",
        "-=", "*=", "/=",
    ];

    for operator in operators {
        let mut scanner = Scanner::new(operator);

        match scanner.peek_token() {
            Ok(token) => println!("peek_token: {:?}", token.kind),
            Err(e) => println!("peek_token ошибка: {}", e.to_string()),
        }

        match scanner.next_token() {
            Ok(token) => {
                if token.is_eof() {
                    panic!(
                        "Оператор '{}' распознан как EOF! source='{}'",
                        operator, operator
                    );
                }

                if !token.is_operator() {
                    panic!(
                        "Токен '{}' не распознан как оператор. Тип: {:?}",
                        operator, token.kind
                    );
                }

                match scanner.next_token() {
                    Ok(eof_token) => {
                        assert!(eof_token.is_eof(), "Ожидался EOF после оператора");
                    }
                    Err(e) => panic!("Ошибка EOF: {}", e.to_string()),
                }
            }
            Err(e) => panic!("Ошибка: {}", e.to_string()),
        }
    }
}

#[test]
fn test_all_delimiters() {
    let delimiters = vec!["(", ")", "{", "}", "[", "]", ";", ",", ":"];

    for delimiter in delimiters {
        let mut scanner = Scanner::new(delimiter);
        let (tokens, errors) = scanner.scan_all();

        assert!(
            errors.is_empty(),
            "Разделитель '{}' вызвал ошибку: {:?}",
            delimiter,
            errors
        );
        assert_eq!(tokens.len(), 2);

        let token = &tokens[0];
        assert!(
            token.is_delimiter(),
            "Токен '{}' не распознан как разделитель",
            delimiter
        );
    }
}
