//! Reports and argument handling for command-line front ends.

use vstd::prelude::*;

use crate::common::text::{chars_of, decimal, push_char, push_decimal, push_text, string_of, text_between};
use crate::common::token::{
    kind_is_delimiter, kind_is_keyword, kind_is_literal, kind_is_operator, Token, TokenKind,
};
use crate::common::position::position_at;
use crate::lexer::error::LexerError;
use crate::lexer::scanner::Scanner;
use crate::utils::{error_lines, token_lines};

verus! {

/// How many of the first `n` tokens have a kind that satisfies `p`.
pub open spec fn count_where(tokens: Seq<Token>, n: int, p: spec_fn(TokenKind) -> bool) -> nat
    decreases n,
{
    if n <= 0 {
        0
    } else {
        count_where(tokens, n - 1, p) + if p(tokens[n - 1].kind) { 1nat } else { 0nat }
    }
}

pub open spec fn not_eof(k: TokenKind) -> bool {
    !(k is EndOfFile)
}

/// Where a `NAME=VALUE` definition splits: at its first `=`, if any.
pub open spec fn first_eq(w: Seq<char>, i: int) -> int
    decreases w.len() - i,
{
    if 0 <= i < w.len() && w[i] != '=' {
        first_eq(w, i + 1)
    } else {
        i
    }
}

/// A command-line definition `NAME=VALUE` as its name and value; without `=`
/// the whole text is the name and the value is empty.
pub fn split_define(define: &str) -> (r: (String, String))
    ensures
        first_eq(define@, 0) < define@.len() ==> r.0@ == define@.subrange(0, first_eq(define@, 0))
            && r.1@ == define@.subrange(first_eq(define@, 0) + 1, define@.len() as int),
        first_eq(define@, 0) >= define@.len() ==> r.0@ == define@ && r.1@.len() == 0,
{
    let v = chars_of(define);
    let mut i: usize = 0;
    while i < v.len() && v[i] != '='
        invariant
            i <= v.len(),
            v@ == define@,
            first_eq(v@, i as int) == first_eq(v@, 0),
        decreases v.len() - i,
    {
        i = i + 1;
    }
    if i < v.len() {
        (text_between(&v, 0, i), text_between(&v, i + 1, v.len()))
    } else {
        (string_of(&v), String::new())
    }
}

/// `OK` without errors, else one `ERROR:` line per error.
pub open spec fn minimal_lines(errors: Seq<LexerError>, n: int) -> Seq<char>
    decreases n,
{
    if n <= 0 {
        Seq::empty()
    } else {
        minimal_lines(errors, n - 1) + "ERROR: "@ + errors[n - 1].text() + seq!['\n']
    }
}

pub fn format_minimal_output(errors: &[LexerError]) -> (r: String)
    ensures
        r@ == if errors@.len() == 0 {
            "OK\n"@
        } else {
            minimal_lines(errors@, errors@.len() as int)
        },
{
    let mut output = String::new();
    if errors.len() == 0 {
        push_text(&mut output, "OK\n");
        return output;
    }
    let mut i: usize = 0;
    while i < errors.len()
        invariant
            i <= errors@.len(),
            output@ == minimal_lines(errors@, i as int),
        decreases errors@.len() - i,
    {
        push_text(&mut output, "ERROR: ");
        let text = errors[i].to_string();
        push_text(&mut output, text.as_str());
        push_char(&mut output, '\n');
        i = i + 1;
        assert(output@ =~= minimal_lines(errors@, i as int));
    }
    output
}

fn count_tokens(tokens: &[Token], which: u8) -> (r: usize)
    requires
        which < 5,
    ensures
        r == count_where(
            tokens@,
            tokens@.len() as int,
            if which == 0 {
                |k: TokenKind| not_eof(k)
            } else if which == 1 {
                |k: TokenKind| kind_is_keyword(k)
            } else if which == 2 {
                |k: TokenKind| kind_is_literal(k)
            } else if which == 3 {
                |k: TokenKind| kind_is_operator(k)
            } else {
                |k: TokenKind| kind_is_delimiter(k)
            },
        ),
{
    let ghost p = if which == 0 {
        |k: TokenKind| not_eof(k)
    } else if which == 1 {
        |k: TokenKind| kind_is_keyword(k)
    } else if which == 2 {
        |k: TokenKind| kind_is_literal(k)
    } else if which == 3 {
        |k: TokenKind| kind_is_operator(k)
    } else {
        |k: TokenKind| kind_is_delimiter(k)
    };
    let mut n: usize = 0;
    let mut i: usize = 0;
    while i < tokens.len()
        invariant
            i <= tokens@.len(),
            n == count_where(tokens@, i as int, p),
            n <= i,
            which < 5,
            p == (if which == 0 {
                |k: TokenKind| not_eof(k)
            } else if which == 1 {
                |k: TokenKind| kind_is_keyword(k)
            } else if which == 2 {
                |k: TokenKind| kind_is_literal(k)
            } else if which == 3 {
                |k: TokenKind| kind_is_operator(k)
            } else {
                |k: TokenKind| kind_is_delimiter(k)
            }),
        decreases tokens@.len() - i,
    {
        let t = &tokens[i];
        let hit = if which == 0 {
            !t.is_eof()
        } else if which == 1 {
            t.is_keyword()
        } else if which == 2 {
            t.is_literal()
        } else if which == 3 {
            t.is_operator()
        } else {
            t.is_delimiter()
        };
        if hit {
            n = n + 1;
        }
        i = i + 1;
    }
    n
}

/// The statistics section of the detailed report.
pub open spec fn verbose_stats(tokens: Seq<Token>, errors: Seq<LexerError>, end_line: nat) -> Seq<char> {
    "=== ДЕТАЛЬНЫЙ ОТЧЕТ ЛЕКСИЧЕСКОГО АНАЛИЗА ===\n\n"@ + "СТАТИСТИКА:\n"@ + "  Всего токенов: "@
        + decimal(tokens.len()) + seq!['\n'] + "  Корректных токенов: "@ + decimal(
        count_where(tokens, tokens.len() as int, |k: TokenKind| not_eof(k)),
    ) + seq!['\n'] + "  Ошибок: "@ + decimal(errors.len()) + seq!['\n']
        + "  Позиция завершения: "@ + decimal(end_line) + seq!['\n'] + "\n"@
}

/// The error section of the detailed report; empty without errors.
pub open spec fn verbose_errors(errors: Seq<LexerError>) -> Seq<char> {
    if errors.len() > 0 {
        "ОШИБКИ:\n"@ + error_lines(errors, errors.len() as int) + "\n"@
    } else {
        Seq::empty()
    }
}

/// The category section of the detailed report.
pub open spec fn verbose_categories(tokens: Seq<Token>) -> Seq<char> {
    let n = tokens.len() as int;
    "\nКАТЕГОРИИ ТОКЕНОВ:\n"@ + "  Ключевые слова: "@ + decimal(
        count_where(tokens, n, |k: TokenKind| kind_is_keyword(k)),
    ) + seq!['\n'] + "  Литералы: "@ + decimal(
        count_where(tokens, n, |k: TokenKind| kind_is_literal(k)),
    ) + seq!['\n'] + "  Операторы: "@ + decimal(
        count_where(tokens, n, |k: TokenKind| kind_is_operator(k)),
    ) + seq!['\n'] + "  Разделители: "@ + decimal(
        count_where(tokens, n, |k: TokenKind| kind_is_delimiter(k)),
    ) + seq!['\n']
}

/// The detailed report: counts, the errors, the tokens and the token categories.
pub open spec fn verbose_text(tokens: Seq<Token>, errors: Seq<LexerError>, end_line: nat) -> Seq<char> {
    verbose_stats(tokens, errors, end_line) + verbose_errors(errors) + "ТОКЕНЫ:\n"@ + token_lines(
        tokens,
        tokens.len() as int,
    ) + verbose_categories(tokens)
}

fn push_stats(out: &mut String, tokens: &[Token], errors: &[LexerError], end_line: usize)
    ensures
        final(out)@ == old(out)@ + verbose_stats(tokens@, errors@, end_line as nat),
{
    let ghost o = out@;
    push_text(out, "=== ДЕТАЛЬНЫЙ ОТЧЕТ ЛЕКСИЧЕСКОГО АНАЛИЗА ===\n\n");
    push_text(out, "СТАТИСТИКА:\n");
    push_text(out, "  Всего токенов: ");
    push_decimal(out, tokens.len());
    push_char(out, '\n');
    push_text(out, "  Корректных токенов: ");
    push_decimal(out, count_tokens(tokens, 0));
    push_char(out, '\n');
    push_text(out, "  Ошибок: ");
    push_decimal(out, errors.len());
    push_char(out, '\n');
    push_text(out, "  Позиция завершения: ");
    push_decimal(out, end_line);
    push_char(out, '\n');
    push_text(out, "\n");
    assert(out@ =~= o + verbose_stats(tokens@, errors@, end_line as nat));
}

fn push_error_section(out: &mut String, errors: &[LexerError])
    ensures
        final(out)@ == old(out)@ + verbose_errors(errors@),
{
    let ghost o = out@;
    if errors.len() > 0 {
        push_text(out, "ОШИБКИ:\n");
        let ghost h2 = out@;
        let mut i: usize = 0;
        while i < errors.len()
            invariant
                i <= errors@.len(),
                out@ == h2 + error_lines(errors@, i as int),
            decreases errors@.len() - i,
        {
            push_text(out, "  ");
            push_decimal(out, i + 1);
            push_text(out, ". ");
            let text = errors[i].to_string();
            push_text(out, text.as_str());
            push_char(out, '\n');
            i = i + 1;
            assert(out@ =~= h2 + error_lines(errors@, i as int));
        }
        push_text(out, "\n");
        assert(out@ =~= o + verbose_errors(errors@));
    } else {
        assert(out@ =~= o + verbose_errors(errors@));
    }
}

fn push_token_section(out: &mut String, tokens: &[Token])
    ensures
        final(out)@ == old(out)@ + "ТОКЕНЫ:\n"@ + token_lines(tokens@, tokens@.len() as int),
{
    let ghost o = out@;
    push_text(out, "ТОКЕНЫ:\n");
    let ghost h3 = out@;
    let mut i: usize = 0;
    while i < tokens.len()
        invariant
            i <= tokens@.len(),
            out@ == h3 + token_lines(tokens@, i as int),
        decreases tokens@.len() - i,
    {
        if !tokens[i].is_eof() {
            push_text(out, "  ");
            crate::utils::push_pad3(out, i + 1);
            push_text(out, ": ");
            let text = tokens[i].to_string();
            push_text(out, text.as_str());
            push_char(out, '\n');
        }
        i = i + 1;
        assert(out@ =~= h3 + token_lines(tokens@, i as int));
    }
}

fn push_categories(out: &mut String, tokens: &[Token])
    ensures
        final(out)@ == old(out)@ + verbose_categories(tokens@),
{
    let ghost o = out@;
    push_text(out, "\nКАТЕГОРИИ ТОКЕНОВ:\n");
    push_text(out, "  Ключевые слова: ");
    push_decimal(out, count_tokens(tokens, 1));
    push_char(out, '\n');
    push_text(out, "  Литералы: ");
    push_decimal(out, count_tokens(tokens, 2));
    push_char(out, '\n');
    push_text(out, "  Операторы: ");
    push_decimal(out, count_tokens(tokens, 3));
    push_char(out, '\n');
    push_text(out, "  Разделители: ");
    push_decimal(out, count_tokens(tokens, 4));
    push_char(out, '\n');
    assert(out@ =~= o + verbose_categories(tokens@));
}

/// The detailed report, with the line the scanner ended on.
pub fn format_verbose_output(tokens: &[Token], errors: &[LexerError], scanner: &Scanner) -> (r:
    String)
    requires
        scanner.wf(),
    ensures
        r@ == verbose_text(
            tokens@,
            errors@,
            position_at(scanner.source(), scanner.cursor()).line as nat,
        ),
{
    let mut output = String::new();
    push_stats(&mut output, tokens, errors, scanner.get_line());
    push_error_section(&mut output, errors);
    push_token_section(&mut output, tokens);
    push_categories(&mut output, tokens);
    assert(output@ =~= verbose_text(
        tokens@,
        errors@,
        position_at(scanner.source(), scanner.cursor()).line as nat,
    ));
    output
}

/// The arguments for the test runner.
pub open spec fn test_args(unit: bool, integration: bool, coverage: bool, test_file: Option<String>) -> Seq<Seq<char>> {
    (if unit && !integration {
        seq!["--lib"@]
    } else if integration && !unit {
        seq!["--tests"@]
    } else {
        Seq::empty()
    }) + (if coverage {
        seq!["--coverage"@]
    } else {
        Seq::empty()
    }) + match test_file {
        Some(f) => seq![f@],
        None => Seq::empty(),
    }
}

/// The arguments for the test runner: `--lib` for unit tests only, `--tests`
/// for integration tests only, `--coverage` on request, then the test file.
pub fn build_test_args(unit: bool, integration: bool, coverage: bool, test_file: Option<String>) -> (r:
    Vec<String>)
    ensures
        r@.map_values(|a: String| a@) == test_args(unit, integration, coverage, test_file),
{
    let ghost expected = test_args(unit, integration, coverage, test_file);
    let mut args: Vec<String> = Vec::new();
    if unit && !integration {
        args.push(String::from_str("--lib"));
    } else if integration && !unit {
        args.push(String::from_str("--tests"));
    }
    if coverage {
        args.push(String::from_str("--coverage"));
    }
    match test_file {
        Some(file) => {
            args.push(file);
        },
        None => {},
    }
    assert(args@.map_values(|a: String| a@) =~= expected);
    args
}

} // verus!
