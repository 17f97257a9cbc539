//! What the scanner reads from a character sequence: positions, trivia,
//! where each token ends, and what each token or error is.

use vstd::prelude::*;

use crate::common::position::position_at;
use crate::common::text::{digit_value, is_digit, is_name_char, is_name_start, is_space};
use crate::common::token::{Token, TokenKind};
use super::error::LexerError;

verus! {

/// What is being skipped between tokens.
pub enum Trivia {
    Code,
    Line,
    Block { start: int, depth: nat },
}

pub open spec fn starts_with2(s: Seq<char>, i: int, a: char, b: char) -> bool {
    0 <= i && i + 1 < s.len() && s[i] == a && s[i + 1] == b
}

/// Skips whitespace and comments from index `i` in mode `m`: the index of the
/// first significant character (or the end), or the index of the `/*` that
/// opens a block comment left open at the end.
pub open spec fn skip_trivia(s: Seq<char>, i: int, m: Trivia) -> Result<int, int>
    decreases s.len() - i,
{
    if i < 0 || i >= s.len() {
        match m {
            Trivia::Block { start, .. } => Err(start),
            _ => Ok(s.len() as int),
        }
    } else {
        match m {
            Trivia::Code => if is_space(s[i]) {
                skip_trivia(s, i + 1, Trivia::Code)
            } else if starts_with2(s, i, '/', '/') {
                skip_trivia(s, i + 2, Trivia::Line)
            } else if starts_with2(s, i, '/', '*') {
                skip_trivia(s, i + 2, Trivia::Block { start: i, depth: 1 })
            } else {
                Ok(i)
            },
            Trivia::Line => if s[i] == '\n' {
                skip_trivia(s, i + 1, Trivia::Code)
            } else {
                skip_trivia(s, i + 1, Trivia::Line)
            },
            Trivia::Block { start, depth } => if starts_with2(s, i, '/', '*') {
                skip_trivia(s, i + 2, Trivia::Block { start, depth: depth + 1 })
            } else if starts_with2(s, i, '*', '/') {
                if depth <= 1 {
                    skip_trivia(s, i + 2, Trivia::Code)
                } else {
                    skip_trivia(s, i + 2, Trivia::Block { start, depth: (depth - 1) as nat })
                }
            } else {
                skip_trivia(s, i + 1, m)
            },
        }
    }
}

pub proof fn lemma_skip_trivia_forward(s: Seq<char>, i: int, m: Trivia)
    requires
        0 <= i <= s.len(),
        m is Block ==> 0 <= m->start <= i,
    ensures
        skip_trivia(s, i, m) is Ok ==> i <= skip_trivia(s, i, m)->Ok_0 <= s.len(),
        skip_trivia(s, i, m) is Ok && skip_trivia(s, i, m)->Ok_0 < s.len() ==> !is_space(
            s[skip_trivia(s, i, m)->Ok_0],
        ),
        skip_trivia(s, i, m) is Err ==> 0 <= skip_trivia(s, i, m)->Err_0 <= s.len(),
        (skip_trivia(s, i, m) is Err && m is Code) ==> i < s.len(),
    decreases s.len() - i,
{
    if i < s.len() {
        match m {
            Trivia::Code => if is_space(s[i]) {
                lemma_skip_trivia_forward(s, i + 1, Trivia::Code);
            } else if starts_with2(s, i, '/', '/') {
                lemma_skip_trivia_forward(s, i + 2, Trivia::Line);
            } else if starts_with2(s, i, '/', '*') {
                lemma_skip_trivia_forward(s, i + 2, Trivia::Block { start: i, depth: 1 });
            },
            Trivia::Line => if s[i] == '\n' {
                lemma_skip_trivia_forward(s, i + 1, Trivia::Code);
            } else {
                lemma_skip_trivia_forward(s, i + 1, Trivia::Line);
            },
            Trivia::Block { start, depth } => if starts_with2(s, i, '/', '*') {
                lemma_skip_trivia_forward(s, i + 2, Trivia::Block { start, depth: depth + 1 });
            } else if starts_with2(s, i, '*', '/') {
                if depth <= 1 {
                    lemma_skip_trivia_forward(s, i + 2, Trivia::Code);
                } else {
                    lemma_skip_trivia_forward(
                        s,
                        i + 2,
                        Trivia::Block { start, depth: (depth - 1) as nat },
                    );
                }
            } else {
                lemma_skip_trivia_forward(s, i + 1, m);
            },
        }
    }
}

/// End of the run of name characters that starts at `k`.
pub open spec fn name_end(s: Seq<char>, k: int) -> int
    decreases s.len() - k,
{
    if 0 <= k < s.len() && is_name_char(s[k]) {
        name_end(s, k + 1)
    } else {
        k
    }
}

/// End of the run of digits that starts at `k`.
pub open spec fn digits_end(s: Seq<char>, k: int) -> int
    decreases s.len() - k,
{
    if 0 <= k < s.len() && is_digit(s[k]) {
        digits_end(s, k + 1)
    } else {
        k
    }
}

/// Where the body of a string literal stops, from index `k` (just after the
/// opening quote): at the closing quote, at an unescaped line break, or at the end.
/// A backslash takes the next character with it, whatever it is.
pub open spec fn string_stop(s: Seq<char>, k: int) -> int
    decreases s.len() - k,
{
    if k < 0 || k >= s.len() {
        k
    } else if s[k] == '"' || s[k] == '\n' {
        k
    } else if s[k] == '\\' {
        if k + 1 < s.len() {
            string_stop(s, k + 2)
        } else {
            k + 1
        }
    } else {
        string_stop(s, k + 1)
    }
}

pub proof fn lemma_runs_forward(s: Seq<char>, k: int)
    requires
        0 <= k <= s.len(),
    ensures
        k <= name_end(s, k) <= s.len(),
        k <= digits_end(s, k) <= s.len(),
        k <= string_stop(s, k) <= s.len(),
        forall|x: int| k <= x < name_end(s, k) ==> is_name_char(#[trigger] s[x]),
        forall|x: int| k <= x < digits_end(s, k) ==> is_digit(#[trigger] s[x]),
    decreases s.len() - k,
{
    if k < s.len() {
        lemma_runs_forward(s, k + 1);
        if s[k] == '\\' && k + 1 < s.len() {
            lemma_runs_forward(s, k + 2);
        }
    }
}

/// A number starts here: a digit, or `-` directly followed by a digit.
pub open spec fn number_starts(s: Seq<char>, j: int) -> bool {
    is_digit(s[j]) || (s[j] == '-' && j + 1 < s.len() && is_digit(s[j + 1]))
}

/// End of the integer part of the number that starts at `j`.
pub open spec fn int_part_end(s: Seq<char>, j: int) -> int {
    digits_end(s, j + 1)
}

/// The number that starts at `j` has a `.` after its integer part.
pub open spec fn number_has_dot(s: Seq<char>, j: int) -> bool {
    int_part_end(s, j) < s.len() && s[int_part_end(s, j)] == '.'
}

pub open spec fn number_end(s: Seq<char>, j: int) -> int {
    if number_has_dot(s, j) {
        digits_end(s, int_part_end(s, j) + 1)
    } else {
        int_part_end(s, j)
    }
}

/// The value of a run of decimal digits.
pub open spec fn digits_value(d: Seq<char>) -> nat
    decreases d.len(),
{
    if d.len() == 0 {
        0
    } else {
        digits_value(d.drop_last()) * 10 + digit_value(d.last())
    }
}

/// The value of an integer literal: an optional `-` and digits.
pub open spec fn int_value(t: Seq<char>) -> int {
    if t.len() > 0 && t[0] == '-' {
        -(digits_value(t.drop_first()) as int)
    } else {
        digits_value(t) as int
    }
}

pub open spec fn fits_i32(v: int) -> bool {
    i32::MIN <= v <= i32::MAX
}

/// The two-character operator formed by `a` and `b`, if any.
pub open spec fn pair_operator(a: char, b: char) -> Option<TokenKind> {
    if a == '+' && b == '=' { Some(TokenKind::PlusEq) }
    else if a == '-' && b == '=' { Some(TokenKind::MinusEq) }
    else if a == '*' && b == '=' { Some(TokenKind::AsteriskEq) }
    else if a == '/' && b == '=' { Some(TokenKind::SlashEq) }
    else if a == '!' && b == '=' { Some(TokenKind::BangEq) }
    else if a == '=' && b == '=' { Some(TokenKind::EqEq) }
    else if a == '<' && b == '=' { Some(TokenKind::LtEq) }
    else if a == '>' && b == '=' { Some(TokenKind::GtEq) }
    else if a == '&' && b == '&' { Some(TokenKind::AmpAmp) }
    else if a == '|' && b == '|' { Some(TokenKind::PipePipe) }
    else { None }
}

/// The one-character operator or delimiter `c`, if any.
pub open spec fn single_token(c: char) -> Option<TokenKind> {
    if c == '(' { Some(TokenKind::LParen) }
    else if c == ')' { Some(TokenKind::RParen) }
    else if c == '{' { Some(TokenKind::LBrace) }
    else if c == '}' { Some(TokenKind::RBrace) }
    else if c == '[' { Some(TokenKind::LBracket) }
    else if c == ']' { Some(TokenKind::RBracket) }
    else if c == ';' { Some(TokenKind::Semicolon) }
    else if c == ',' { Some(TokenKind::Comma) }
    else if c == ':' { Some(TokenKind::Colon) }
    else if c == '+' { Some(TokenKind::Plus) }
    else if c == '-' { Some(TokenKind::Minus) }
    else if c == '*' { Some(TokenKind::Asterisk) }
    else if c == '/' { Some(TokenKind::Slash) }
    else if c == '%' { Some(TokenKind::Percent) }
    else if c == '!' { Some(TokenKind::Bang) }
    else if c == '=' { Some(TokenKind::Eq) }
    else if c == '<' { Some(TokenKind::Lt) }
    else if c == '>' { Some(TokenKind::Gt) }
    else { None }
}

/// The kind of a reserved word; `true` and `false` are boolean literals.
pub open spec fn keyword_kind(w: Seq<char>) -> Option<TokenKind> {
    if w == "if"@ { Some(TokenKind::KwIf) }
    else if w == "else"@ { Some(TokenKind::KwElse) }
    else if w == "while"@ { Some(TokenKind::KwWhile) }
    else if w == "for"@ { Some(TokenKind::KwFor) }
    else if w == "int"@ { Some(TokenKind::KwInt) }
    else if w == "float"@ { Some(TokenKind::KwFloat) }
    else if w == "bool"@ { Some(TokenKind::KwBool) }
    else if w == "return"@ { Some(TokenKind::KwReturn) }
    else if w == "true"@ { Some(TokenKind::BoolLiteral(true)) }
    else if w == "false"@ { Some(TokenKind::BoolLiteral(false)) }
    else if w == "void"@ { Some(TokenKind::KwVoid) }
    else if w == "struct"@ { Some(TokenKind::KwStruct) }
    else if w == "fn"@ { Some(TokenKind::KwFn) }
    else { None }
}

/// The longest identifier the scanner accepts.
pub const MAX_IDENTIFIER_LEN: usize = 255;

/// Index just past the token (or the faulty text) that starts at the significant character `j`.
pub open spec fn token_end(s: Seq<char>, j: int) -> int {
    let c = s[j];
    if number_starts(s, j) {
        number_end(s, j)
    } else if c == '"' {
        let e = string_stop(s, j + 1);
        if e < s.len() && s[e] == '"' {
            e + 1
        } else {
            e
        }
    } else if is_name_start(c) {
        name_end(s, j + 1)
    } else if j + 1 < s.len() && pair_operator(c, s[j + 1]) is Some {
        j + 2
    } else {
        j + 1
    }
}

/// `r` is a token with the text of `s[j..e]`, starting at `j`, of kind `k`.
pub open spec fn is_token(r: Result<Token, LexerError>, s: Seq<char>, j: int, e: int, k: TokenKind) -> bool {
    &&& r is Ok
    &&& r->Ok_0.lexeme@ == s.subrange(j, e)
    &&& r->Ok_0.position == position_at(s, j)
    &&& r->Ok_0.kind == k
}

/// `r` is an invalid-number error for the text `s[j..e]`.
pub open spec fn is_bad_number(r: Result<Token, LexerError>, s: Seq<char>, j: int, e: int) -> bool {
    match r {
        Err(LexerError::InvalidNumber { position, lexeme }) => position == position_at(s, j)
            && lexeme@ == s.subrange(j, e),
        _ => false,
    }
}

/// What scanning the token that starts at the significant character `j` yields.
pub open spec fn token_outcome(s: Seq<char>, j: int, r: Result<Token, LexerError>) -> bool {
    let c = s[j];
    let e = token_end(s, j);
    let text = s.subrange(j, e);
    let pos = position_at(s, j);
    if number_starts(s, j) {
        if number_has_dot(s, j) {
            if e == int_part_end(s, j) + 1 {
                is_bad_number(r, s, j, e)
            } else {
                r is Ok && is_token(r, s, j, e, TokenKind::FloatLiteral(r->Ok_0.lexeme))
            }
        } else if fits_i32(int_value(text)) {
            is_token(r, s, j, e, TokenKind::IntLiteral(int_value(text) as i32))
        } else {
            is_bad_number(r, s, j, e)
        }
    } else if c == '"' {
        if e - 1 < s.len() && e - 1 > j && s[e - 1] == '"' && e == string_stop(s, j + 1) + 1 {
            r is Ok && (match r->Ok_0.kind {
                TokenKind::StringLiteral(t) => t@ == s.subrange(j + 1, e - 1),
                _ => false,
            }) && r->Ok_0.lexeme@ == text && r->Ok_0.position == pos
        } else {
            r == Err::<Token, LexerError>(LexerError::UnterminatedString { position: pos })
        }
    } else if is_name_start(c) {
        if text.len() > MAX_IDENTIFIER_LEN {
            r == Err::<Token, LexerError>(LexerError::IdentifierTooLong { position: pos })
        } else {
            match keyword_kind(text) {
                Some(k) => is_token(r, s, j, e, k),
                None => r is Ok && is_token(r, s, j, e, TokenKind::Identifier(r->Ok_0.lexeme)),
            }
        }
    } else if j + 1 < s.len() && pair_operator(c, s[j + 1]) is Some {
        is_token(r, s, j, e, pair_operator(c, s[j + 1])->0)
    } else if single_token(c) is Some {
        is_token(r, s, j, e, single_token(c)->0)
    } else {
        r == Err::<Token, LexerError>(
            LexerError::UnexpectedCharacter { position: pos, character: c },
        )
    }
}

/// Whether the token that starts at the significant character `j` is scanned without error.
pub open spec fn token_succeeds(s: Seq<char>, j: int) -> bool {
    let c = s[j];
    let e = token_end(s, j);
    if number_starts(s, j) {
        if number_has_dot(s, j) {
            e != int_part_end(s, j) + 1
        } else {
            fits_i32(int_value(s.subrange(j, e)))
        }
    } else if c == '"' {
        e - 1 < s.len() && e - 1 > j && s[e - 1] == '"' && e == string_stop(s, j + 1) + 1
    } else if is_name_start(c) {
        e - j <= MAX_IDENTIFIER_LEN
    } else if j + 1 < s.len() && pair_operator(c, s[j + 1]) is Some {
        true
    } else {
        single_token(c) is Some
    }
}

/// What one call of `next_token` yields from index `i`.
pub open spec fn next_outcome(s: Seq<char>, i: int, r: Result<Token, LexerError>) -> bool {
    match skip_trivia(s, i, Trivia::Code) {
        Err(start) => r == Err::<Token, LexerError>(
            LexerError::UnterminatedComment { position: position_at(s, start) },
        ),
        Ok(j) => if j >= s.len() {
            &&& r is Ok
            &&& r->Ok_0.kind is EndOfFile
            &&& r->Ok_0.lexeme@.len() == 0
            &&& r->Ok_0.position == position_at(s, j)
        } else {
            token_outcome(s, j, r)
        },
    }
}

/// Whether one call of `next_token` from index `i` yields a token.
pub open spec fn next_succeeds(s: Seq<char>, i: int) -> bool {
    match skip_trivia(s, i, Trivia::Code) {
        Err(_) => false,
        Ok(j) => j >= s.len() || token_succeeds(s, j),
    }
}

/// Whether one call of `next_token` from index `i` yields the end-of-file token.
pub open spec fn next_is_end(s: Seq<char>, i: int) -> bool {
    match skip_trivia(s, i, Trivia::Code) {
        Err(_) => false,
        Ok(j) => j >= s.len(),
    }
}

/// The index from which the call of `next_token` after the one at `i` reads.
pub open spec fn next_index(s: Seq<char>, i: int) -> int {
    match skip_trivia(s, i, Trivia::Code) {
        Err(_) => s.len() as int,
        Ok(j) => if j >= s.len() {
            j
        } else {
            token_end(s, j)
        },
    }
}

/// Where scanning resumes after an error at `i`: one character past the faulty text.
pub open spec fn resume_index(s: Seq<char>, i: int) -> int {
    if next_index(s, i) < s.len() {
        next_index(s, i) + 1
    } else {
        s.len() as int
    }
}

/// `tokens` and `errors` are what scanning the whole rest of `s` from index `i`
/// collects: every token up to and including the end-of-file token, and every
/// error, each error followed by skipping one character.
pub open spec fn scan_trace(s: Seq<char>, i: int, tokens: Seq<Token>, errors: Seq<LexerError>) -> bool
    decreases s.len() - i,
{
    if i < 0 || i > s.len() {
        false
    } else if next_succeeds(s, i) {
        &&& tokens.len() >= 1
        &&& next_outcome(s, i, Ok(tokens[0]))
        &&& if next_is_end(s, i) {
            tokens.len() == 1 && errors.len() == 0
        } else if i < next_index(s, i) <= s.len() {
            scan_trace(s, next_index(s, i), tokens.drop_first(), errors)
        } else {
            false
        }
    } else {
        &&& errors.len() >= 1
        &&& next_outcome(s, i, Err(errors[0]))
        &&& if i < resume_index(s, i) <= s.len() {
            scan_trace(s, resume_index(s, i), tokens, errors.drop_first())
        } else {
            false
        }
    }
}

pub proof fn lemma_token_end_bounds(s: Seq<char>, j: int)
    requires
        0 <= j < s.len(),
    ensures
        j < token_end(s, j) <= s.len(),
{
    lemma_runs_forward(s, j + 1);
    if number_starts(s, j) && number_has_dot(s, j) {
        lemma_runs_forward(s, int_part_end(s, j) + 1);
    }
}

/// Each call of `next_token` moves forward, and stops moving only at the end.
pub proof fn lemma_next_progress(s: Seq<char>, i: int)
    requires
        0 <= i <= s.len(),
    ensures
        i <= next_index(s, i) <= s.len(),
        next_succeeds(s, i) && !next_is_end(s, i) ==> i < next_index(s, i),
        !next_succeeds(s, i) ==> i < resume_index(s, i) <= s.len(),
{
    lemma_skip_trivia_forward(s, i, Trivia::Code);
    match skip_trivia(s, i, Trivia::Code) {
        Ok(j) => if j < s.len() {
            lemma_token_end_bounds(s, j);
        },
        Err(_) => {},
    }
}

/// The outcome of `next_token` is a token exactly when `next_succeeds` says so,
/// and the end-of-file token exactly when `next_is_end` says so.
pub proof fn lemma_outcome_agrees(s: Seq<char>, i: int, r: Result<Token, LexerError>)
    requires
        0 <= i <= s.len(),
        next_outcome(s, i, r),
    ensures
        r is Ok <==> next_succeeds(s, i),
        r is Ok ==> (r->Ok_0.kind is EndOfFile <==> next_is_end(s, i)),
{
    lemma_skip_trivia_forward(s, i, Trivia::Code);
    match skip_trivia(s, i, Trivia::Code) {
        Ok(j) => if j < s.len() {
            lemma_token_end_bounds(s, j);
        },
        Err(_) => {},
    }
}

} // verus!
