//! Keyword and identifier checks, string escaping and report formatting.

use vstd::prelude::*;

use crate::common::text::{
    chars_of, decimal, is_name_char, is_name_start, name_char, name_start, push_char,
    push_decimal, push_text,
};
use crate::common::token::{Token};
use crate::lexer::error::LexerError;
use crate::lexer::grammar::{keyword_kind, MAX_IDENTIFIER_LEN};
use crate::lexer::scanner::keyword_of;

verus! {

/// One of the reserved words `if else while for int float bool return true false void struct fn`.
pub open spec fn is_keyword_text(w: Seq<char>) -> bool {
    keyword_kind(w) is Some
}

/// A name the language accepts: a letter or `_` first, then letters, digits
/// or `_`, at most 255 characters, and not a reserved word.
pub open spec fn valid_identifier(w: Seq<char>) -> bool {
    &&& 0 < w.len() <= MAX_IDENTIFIER_LEN
    &&& is_name_start(w[0])
    &&& forall|k: int| 0 <= k < w.len() ==> is_name_char(#[trigger] w[k])
    &&& !is_keyword_text(w)
}

/// The escaped form of one character.
pub open spec fn escape_char(c: char) -> Seq<char> {
    if c == '\n' {
        seq!['\\', 'n']
    } else if c == '\t' {
        seq!['\\', 't']
    } else if c == '\r' {
        seq!['\\', 'r']
    } else if c == '\\' {
        seq!['\\', '\\']
    } else if c == '"' {
        seq!['\\', '"']
    } else if c == '\'' {
        seq!['\\', '\'']
    } else {
        seq![c]
    }
}

/// `s` with line breaks, tabs, carriage returns, backslashes and quotes escaped.
pub open spec fn escaped(s: Seq<char>) -> Seq<char>
    decreases s.len(),
{
    if s.len() == 0 {
        Seq::empty()
    } else {
        escaped(s.drop_last()) + escape_char(s.last())
    }
}

/// `n` right-aligned in a field of three characters.
pub open spec fn pad3(n: nat) -> Seq<char> {
    let d = decimal(n);
    if d.len() >= 3 {
        d
    } else if d.len() == 2 {
        seq![' '] + d
    } else {
        seq![' ', ' '] + d
    }
}

/// The numbered lines of an error report, from the error at index `i` on.
pub open spec fn error_lines(errors: Seq<LexerError>, n: int) -> Seq<char>
    decreases n,
{
    if n <= 0 {
        Seq::empty()
    } else {
        error_lines(errors, n - 1) + "  "@ + decimal(n as nat) + ". "@ + errors[n - 1].text()
            + seq!['\n']
    }
}

/// The numbered lines of a token report for the first `n` tokens; the end-of-file token is left out.
pub open spec fn token_lines(tokens: Seq<Token>, n: int) -> Seq<char>
    decreases n,
{
    if n <= 0 {
        Seq::empty()
    } else {
        token_lines(tokens, n - 1) + if tokens[n - 1].kind is EndOfFile {
            Seq::empty()
        } else {
            "  "@ + pad3(n as nat) + ": "@ + tokens[n - 1].text() + seq!['\n']
        }
    }
}

/// The error report: a count and one numbered line per error.
pub open spec fn errors_report(errors: Seq<LexerError>) -> Seq<char> {
    if errors.len() == 0 {
        "Ошибок не обнаружено.\n"@
    } else {
        "Найдено "@ + decimal(errors.len() as nat) + " ошибок:\n"@ + error_lines(
            errors,
            errors.len() as int,
        )
    }
}

/// The token report: a count and one numbered line per token but the end-of-file token.
pub open spec fn tokens_report(tokens: Seq<Token>) -> Seq<char> {
    if tokens.len() == 0 {
        "Токены не найдены.\n"@
    } else {
        "Найдено "@ + decimal(tokens.len() as nat) + " токенов:\n"@ + token_lines(
            tokens,
            tokens.len() as int,
        )
    }
}

pub fn is_keyword(s: &str) -> (r: bool)
    ensures
        r == is_keyword_text(s@),
{
    let v = chars_of(s);
    assert(v@.subrange(0, v@.len() as int) =~= v@);
    keyword_of(&v, 0, v.len()).is_some()
}

pub fn is_valid_identifier(s: &str) -> (r: bool)
    ensures
        r == valid_identifier(s@),
{
    let v = chars_of(s);
    if v.len() == 0 || v.len() > MAX_IDENTIFIER_LEN {
        return false;
    }
    if !name_start(v[0]) {
        return false;
    }
    let mut i: usize = 0;
    while i < v.len()
        invariant
            i <= v.len(),
            v@ == s@,
            forall|k: int| 0 <= k < i ==> is_name_char(#[trigger] v@[k]),
        decreases v.len() - i,
    {
        if !name_char(v[i]) {
            return false;
        }
        i = i + 1;
    }
    !is_keyword(s)
}

fn push_escaped(out: &mut String, c: char)
    ensures
        final(out)@ == old(out)@ + escape_char(c),
{
    let ghost o = out@;
    if c == '\n' {
        push_char(out, '\\');
        push_char(out, 'n');
    } else if c == '\t' {
        push_char(out, '\\');
        push_char(out, 't');
    } else if c == '\r' {
        push_char(out, '\\');
        push_char(out, 'r');
    } else if c == '\\' {
        push_char(out, '\\');
        push_char(out, '\\');
    } else if c == '"' {
        push_char(out, '\\');
        push_char(out, '"');
    } else if c == '\'' {
        push_char(out, '\\');
        push_char(out, '\'');
    } else {
        push_char(out, c);
    }
    assert(out@ =~= o + escape_char(c));
}

/// `s` with line breaks, tabs, carriage returns, backslashes and quotes escaped.
pub fn escape_string(s: &str) -> (r: String)
    ensures
        r@ == escaped(s@),
{
    let v = chars_of(s);
    let mut r = String::new();
    let mut i: usize = 0;
    while i < v.len()
        invariant
            i <= v.len(),
            r@ == escaped(v@.subrange(0, i as int)),
        decreases v.len() - i,
    {
        push_escaped(&mut r, v[i]);
        proof {
            assert(v@.subrange(0, i + 1).drop_last() =~= v@.subrange(0, i as int));
        }
        i = i + 1;
    }
    assert(v@.subrange(0, v@.len() as int) =~= v@);
    r
}

/// A numbered report of `errors`.
pub fn format_errors(errors: &[LexerError]) -> (r: String)
    ensures
        r@ == errors_report(errors@),
{
    let mut r = String::new();
    if errors.len() == 0 {
        push_text(&mut r, "Ошибок не обнаружено.\n");
        return r;
    }
    push_text(&mut r, "Найдено ");
    push_decimal(&mut r, errors.len());
    push_text(&mut r, " ошибок:\n");
    let ghost head = r@;
    let mut i: usize = 0;
    while i < errors.len()
        invariant
            i <= errors@.len(),
            r@ == head + error_lines(errors@, i as int),
        decreases errors@.len() - i,
    {
        push_text(&mut r, "  ");
        push_decimal(&mut r, i + 1);
        push_text(&mut r, ". ");
        let text = errors[i].to_string();
        push_text(&mut r, text.as_str());
        push_char(&mut r, '\n');
        i = i + 1;
        assert(r@ =~= head + error_lines(errors@, i as int));
    }
    r
}

pub(crate) fn push_pad3(out: &mut String, n: usize)
    ensures
        final(out)@ == old(out)@ + pad3(n as nat),
{
    let ghost o = out@;
    if n < 10 {
        push_char(out, ' ');
        push_char(out, ' ');
    } else if n < 100 {
        push_char(out, ' ');
    }
    push_decimal(out, n);
    proof {
        reveal_with_fuel(decimal, 3);
        if n >= 100 {
            assert(decimal((n / 10) as nat).len() >= 2) by {
                reveal_with_fuel(decimal, 2);
            }
        }
    }
    assert(out@ =~= o + pad3(n as nat));
}

/// A numbered report of `tokens`, leaving out the end-of-file token.
pub fn format_tokens(tokens: &[Token]) -> (r: String)
    ensures
        r@ == tokens_report(tokens@),
{
    let mut r = String::new();
    if tokens.len() == 0 {
        push_text(&mut r, "Токены не найдены.\n");
        return r;
    }
    push_text(&mut r, "Найдено ");
    push_decimal(&mut r, tokens.len());
    push_text(&mut r, " токенов:\n");
    let ghost head = r@;
    let mut i: usize = 0;
    while i < tokens.len()
        invariant
            i <= tokens@.len(),
            r@ == head + token_lines(tokens@, i as int),
        decreases tokens@.len() - i,
    {
        let ghost before = r@;
        if !tokens[i].is_eof() {
            push_text(&mut r, "  ");
            push_pad3(&mut r, i + 1);
            push_text(&mut r, ": ");
            let text = tokens[i].to_string();
            push_text(&mut r, text.as_str());
            push_char(&mut r, '\n');
        }
        i = i + 1;
        assert(r@ =~= head + token_lines(tokens@, i as int));
    }
    r
}

} // verus!
