//! The scanner: a maximal-munch tokenizer over a buffered character sequence,
//! with line/column tracking and recovery that never stops the overall scan.

use vstd::prelude::*;

use super::error::{ErrorRecovery, LexerError, LexerResult};
use super::grammar::{
    digits_end, digits_value, fits_i32, int_value, keyword_kind, lemma_next_progress,
    lemma_outcome_agrees, lemma_runs_forward, name_end, next_index, next_outcome, number_starts,
    pair_operator, resume_index, scan_trace, single_token, skip_trivia, starts_with2, string_stop,
    token_end, token_outcome, Trivia, MAX_IDENTIFIER_LEN,
};
use crate::common::position::{lemma_line_col_bounds, position_at, Position};
use crate::common::text::{
    chars_of, digit, is_digit, is_name_start, is_space, name_char, name_start, space, text_between,
    text_is,
};
use crate::common::token::{Token, TokenKind};

verus! {

/// The two-character operator formed by `a` and `b`, if any.
fn pair_kind(a: char, b: char) -> (r: Option<TokenKind>)
    ensures
        r == pair_operator(a, b),
{
    if a == '+' && b == '=' { Some(TokenKind::PlusEq) }
    else if a == '-' && b == '=' { Some(TokenKind::MinusEq) }
    else if a == '*' && b == '=' { Some(TokenKind::AsteriskEq) }
    else if a == '/' && b == '=' { Some(TokenKind::SlashEq) }
    else if a == '!' && b == '=' { Some(TokenKind::BangEq) }
    else if a == '=' && b == '=' { Some(TokenKind::EqEq) }
    else if a == '<' && b == '=' { Some(TokenKind::LtEq) }
    else if a == '>' && b == '=' { Some(TokenKind::GtEq) }
    else if a == '&' && b == '&' { Some(TokenKind::AmpAmp) }
    else if a == '|' && b == '|' { Some(TokenKind::PipePipe) }
    else { None }
}

/// The one-character operator or delimiter `c`, if any.
fn single_kind(c: char) -> (r: Option<TokenKind>)
    ensures
        r == single_token(c),
{
    if c == '(' { Some(TokenKind::LParen) }
    else if c == ')' { Some(TokenKind::RParen) }
    else if c == '{' { Some(TokenKind::LBrace) }
    else if c == '}' { Some(TokenKind::RBrace) }
    else if c == '[' { Some(TokenKind::LBracket) }
    else if c == ']' { Some(TokenKind::RBracket) }
    else if c == ';' { Some(TokenKind::Semicolon) }
    else if c == ',' { Some(TokenKind::Comma) }
    else if c == ':' { Some(TokenKind::Colon) }
    else if c == '+' { Some(TokenKind::Plus) }
    else if c == '-' { Some(TokenKind::Minus) }
    else if c == '*' { Some(TokenKind::Asterisk) }
    else if c == '/' { Some(TokenKind::Slash) }
    else if c == '%' { Some(TokenKind::Percent) }
    else if c == '!' { Some(TokenKind::Bang) }
    else if c == '=' { Some(TokenKind::Eq) }
    else if c == '<' { Some(TokenKind::Lt) }
    else if c == '>' { Some(TokenKind::Gt) }
    else { None }
}

/// The kind of the reserved word `v[from..to]`, if it is one.
pub(crate) fn keyword_of(v: &Vec<char>, from: usize, to: usize) -> (r: Option<TokenKind>)
    requires
        from <= to <= v.len(),
    ensures
        r == keyword_kind(v@.subrange(from as int, to as int)),
{
    if text_is(v, from, to, "if") { Some(TokenKind::KwIf) }
    else if text_is(v, from, to, "else") { Some(TokenKind::KwElse) }
    else if text_is(v, from, to, "while") { Some(TokenKind::KwWhile) }
    else if text_is(v, from, to, "for") { Some(TokenKind::KwFor) }
    else if text_is(v, from, to, "int") { Some(TokenKind::KwInt) }
    else if text_is(v, from, to, "float") { Some(TokenKind::KwFloat) }
    else if text_is(v, from, to, "bool") { Some(TokenKind::KwBool) }
    else if text_is(v, from, to, "return") { Some(TokenKind::KwReturn) }
    else if text_is(v, from, to, "true") { Some(TokenKind::BoolLiteral(true)) }
    else if text_is(v, from, to, "false") { Some(TokenKind::BoolLiteral(false)) }
    else if text_is(v, from, to, "void") { Some(TokenKind::KwVoid) }
    else if text_is(v, from, to, "struct") { Some(TokenKind::KwStruct) }
    else if text_is(v, from, to, "fn") { Some(TokenKind::KwFn) }
    else { None }
}

proof fn lemma_digits_value_grows(d: Seq<char>, c: char)
    ensures
        digits_value(d.push(c)) >= digits_value(d),
        digits_value(d.push(c)) == digits_value(d) * 10 + crate::common::text::digit_value(c),
{
    assert(d.push(c).drop_last() =~= d);
}

/// The value of the integer literal `v[from..to]` (an optional `-`, then
/// digits), when it fits in 32 bits.
fn parse_int(v: &Vec<char>, from: usize, to: usize) -> (r: Option<i32>)
    requires
        from < to <= v.len(),
        v@[from as int] == '-' ==> from + 1 < to,
        forall|k: int| from < k < to ==> is_digit(#[trigger] v@[k]),
        v@[from as int] == '-' || is_digit(v@[from as int]),
    ensures
        r is Some <==> fits_i32(int_value(v@.subrange(from as int, to as int))),
        r is Some ==> r->0 as int == int_value(v@.subrange(from as int, to as int)),
{
    let negative = v[from] == '-';
    let first: usize = if negative { from + 1 } else { from };
    let mut k: usize = first;
    let mut acc: u64 = 0;
    let mut over = false;
    while k < to
        invariant
            from <= first <= k <= to <= v.len(),
            first == (if negative { from + 1 } else { from as int }),
            forall|x: int| first <= x < to ==> is_digit(#[trigger] v@[x]),
            !over ==> acc == digits_value(v@.subrange(first as int, k as int)),
            !over ==> acc <= 2147483648,
            over ==> digits_value(v@.subrange(first as int, k as int)) > 2147483648,
        decreases to - k,
    {
        let c = v[k];
        let d: u64 = ((c as u32) - ('0' as u32)) as u64;
        proof {
            assert(is_digit(v@[k as int]));
            assert(v@.subrange(first as int, k + 1) =~= v@.subrange(first as int, k as int).push(
                c,
            ));
            lemma_digits_value_grows(v@.subrange(first as int, k as int), c);
        }
        if !over {
            let next = acc * 10 + d;
            if next > 2147483648 {
                over = true;
            } else {
                acc = next;
            }
        }
        k = k + 1;
    }
    let ghost t = v@.subrange(from as int, to as int);
    proof {
        if negative {
            assert(t.drop_first() =~= v@.subrange(first as int, to as int));
        } else {
            assert(t =~= v@.subrange(first as int, to as int));
        }
    }
    if over {
        None
    } else if negative {
        Some((0 - (acc as i64)) as i32)
    } else if acc <= 2147483647 {
        Some(acc as i32)
    } else {
        None
    }
}

/// A tokenizer over one source text.
pub struct Scanner {
    chars: Vec<char>,
    index: usize,
    current_position: Position,
    start_position: Position,
    start_index: usize,
    current_lexeme: String,
    error_recovery: ErrorRecovery,
}

impl Scanner {
    /// The text being scanned.
    pub closed spec fn source(&self) -> Seq<char> {
        self.chars@
    }

    /// Index of the next unread character.
    pub closed spec fn cursor(&self) -> int {
        self.index as int
    }

    pub closed spec fn buffer(&self) -> Vec<char> {
        self.chars
    }

    pub closed spec fn wf(&self) -> bool {
        &&& self.chars@.len() < usize::MAX
        &&& self.index <= self.chars@.len()
        &&& self.start_index <= self.index
        &&& self.current_position == position_at(self.chars@, self.index as int)
        &&& self.start_position == position_at(self.chars@, self.start_index as int)
        &&& self.current_lexeme@ == self.chars@.subrange(
            self.start_index as int,
            self.index as int,
        )
        &&& self.error_recovery.skipped() <= self.index
    }

    /// A scanner for text that has already been preprocessed.
    pub fn from_preprocessed(source: &str) -> (r: Self)
        requires
            source@.len() < usize::MAX,
        ensures
            r.wf(),
            r.source() == source@,
            r.cursor() == 0,
    {
        Self::new(source)
    }

    pub fn new(source: &str) -> (r: Self)
        requires
            source@.len() < usize::MAX,
        ensures
            r.wf(),
            r.source() == source@,
            r.cursor() == 0,
    {
        let chars = chars_of(source);
        let r = Scanner {
            chars,
            index: 0,
            current_position: Position::start(),
            start_position: Position::start(),
            start_index: 0,
            current_lexeme: String::new(),
            error_recovery: ErrorRecovery::new(),
        };
        assert(r.current_lexeme@ =~= r.chars@.subrange(0, 0));
        r
    }

    /// Reads one character, moving the position past it.
    fn advance(&mut self) -> (r: Option<char>)
        requires
            old(self).wf(),
        ensures
            final(self).wf(),
            final(self).chars == old(self).chars,
            final(self).start_index == old(self).start_index,
            final(self).error_recovery == old(self).error_recovery,
            old(self).index < old(self).chars@.len() ==> r == Some(old(self).chars@[old(self).index as int])
                && final(self).index == old(self).index + 1,
            old(self).index >= old(self).chars@.len() ==> r is None && final(self).index
                == old(self).index,
    {
        if self.index >= self.chars.len() {
            return None;
        }
        let c = self.chars[self.index];
        let ghost s = self.chars@;
        let ghost i = self.index as int;
        proof {
            lemma_line_col_bounds(s, i);
            lemma_line_col_bounds(s, i + 1);
        }
        if c == '\n' {
            self.current_position.new_line();
        } else {
            self.current_position.advance_column(1);
        }
        crate::common::text::push_char(&mut self.current_lexeme, c);
        self.index = self.index + 1;
        assert(self.current_lexeme@ =~= s.subrange(self.start_index as int, self.index as int));
        Some(c)
    }

    fn peek(&self) -> (r: Option<char>)
        ensures
            self.index < self.chars@.len() ==> r == Some(self.chars@[self.index as int]),
            self.index >= self.chars@.len() ==> r is None,
    {
        if self.index < self.chars.len() {
            Some(self.chars[self.index])
        } else {
            None
        }
    }

    /// The character after the next one.
    fn peek_next(&self) -> (r: Option<char>)
        ensures
            self.index + 1 < self.chars@.len() ==> r == Some(self.chars@[self.index + 1]),
            self.index + 1 >= self.chars@.len() ==> r is None,
    {
        if self.index < self.chars.len() && self.index + 1 < self.chars.len() {
            Some(self.chars[self.index + 1])
        } else {
            None
        }
    }

    /// Reads the next character when it is `expected`.
    fn matches(&mut self, expected: char) -> (r: bool)
        requires
            old(self).wf(),
        ensures
            final(self).wf(),
            final(self).chars == old(self).chars,
            final(self).start_index == old(self).start_index,
            final(self).error_recovery == old(self).error_recovery,
            r == (old(self).index < old(self).chars@.len() && old(self).chars@[old(self).index as int]
                == expected),
            r ==> final(self).index == old(self).index + 1,
            !r ==> final(self).index == old(self).index,
    {
        match self.peek() {
            Some(c) => if c == expected {
                self.advance();
                true
            } else {
                false
            },
            None => false,
        }
    }

    pub fn is_at_end(&self) -> (r: bool)
        ensures
            r == (self.cursor() >= self.source().len()),
    {
        self.index >= self.chars.len()
    }

    pub fn get_line(&self) -> (r: usize)
        requires
            self.wf(),
        ensures
            r == position_at(self.source(), self.cursor()).line,
    {
        self.current_position.line
    }

    pub fn get_column(&self) -> (r: usize)
        requires
            self.wf(),
        ensures
            r == position_at(self.source(), self.cursor()).column,
    {
        self.current_position.column
    }

    /// Begins a new token at the cursor.
    fn start_token(&mut self)
        requires
            old(self).wf(),
        ensures
            final(self).wf(),
            final(self).chars == old(self).chars,
            final(self).index == old(self).index,
            final(self).start_index == old(self).index,
    {
        self.start_position = self.current_position;
        self.start_index = self.index;
        self.current_lexeme = String::new();
        self.error_recovery = ErrorRecovery::new();
        assert(self.current_lexeme@ =~= self.chars@.subrange(
            self.start_index as int,
            self.index as int,
        ));
    }

    /// The token of kind `kind` made of the text read since the token began.
    fn make_token(&self, kind: TokenKind) -> (r: Token)
        requires
            self.wf(),
            self.start_index < self.index,
        ensures
            r.kind == kind,
            r.lexeme == self.current_lexeme,
            r.lexeme@ == self.chars@.subrange(self.start_index as int, self.index as int),
            r.position == position_at(self.chars@, self.start_index as int),
    {
        proof {
            lemma_line_col_bounds(self.chars@, self.start_index as int);
        }
        Token::new(kind, self.current_lexeme.clone(), self.start_position)
    }

    fn error(&self, error: LexerError) -> (r: LexerError)
        ensures
            r == error,
    {
        error
    }

    /// Skips whitespace; the next token begins after it.
    fn skip_whitespace(&mut self)
        requires
            old(self).wf(),
        ensures
            final(self).wf(),
            final(self).chars == old(self).chars,
            old(self).index <= final(self).index,
            final(self).start_index == final(self).index,
            skip_trivia(old(self).chars@, old(self).index as int, Trivia::Code) == skip_trivia(
                final(self).chars@,
                final(self).index as int,
                Trivia::Code,
            ),
            final(self).index < final(self).chars@.len() ==> !is_space(
                final(self).chars@[final(self).index as int],
            ),
    {
        let ghost s = self.chars@;
        let ghost buf = self.chars;
        let ghost i0 = self.index as int;
        while self.index < self.chars.len() && space(self.chars[self.index])
            invariant
                self.wf(),
                self.chars == buf,
                self.chars@ == s,
                i0 <= self.index,
                skip_trivia(s, i0, Trivia::Code) == skip_trivia(s, self.index as int, Trivia::Code),
            decreases s.len() - self.index,
        {
            self.advance_whitespace();
        }
        self.current_lexeme = String::new();
        self.start_position = self.current_position;
        self.start_index = self.index;
        assert(self.current_lexeme@ =~= s.subrange(self.start_index as int, self.index as int));
    }

    /// Reads one whitespace character; a `\r\n` pair is read as one line break.
    fn advance_whitespace(&mut self) -> (r: Option<char>)
        requires
            old(self).wf(),
            old(self).index < old(self).chars@.len(),
            is_space(old(self).chars@[old(self).index as int]),
        ensures
            final(self).wf(),
            final(self).chars == old(self).chars,
            old(self).index < final(self).index,
            skip_trivia(old(self).chars@, old(self).index as int, Trivia::Code) == skip_trivia(
                final(self).chars@,
                final(self).index as int,
                Trivia::Code,
            ),
            r == Some(old(self).chars@[old(self).index as int]),
    {
        let ghost s = self.chars@;
        let ghost i = self.index as int;
        let c = self.advance();
        if c == Some('\r') && self.peek() == Some('\n') {
            self.advance();
            assert(skip_trivia(s, i + 1, Trivia::Code) == skip_trivia(s, i + 2, Trivia::Code));
        }
        c
    }

    /// Skips one comment that starts at the cursor, a `//` line comment or a
    /// nesting `/* */` block comment.
    fn skip_comments(&mut self) -> (r: LexerResult<()>)
        requires
            old(self).wf(),
            starts_with2(old(self).chars@, old(self).index as int, '/', '/') || starts_with2(
                old(self).chars@,
                old(self).index as int,
                '/',
                '*',
            ),
        ensures
            final(self).wf(),
            final(self).chars == old(self).chars,
            old(self).index < final(self).index,
            r is Ok ==> skip_trivia(old(self).chars@, old(self).index as int, Trivia::Code)
                == skip_trivia(final(self).chars@, final(self).index as int, Trivia::Code),
            r is Err ==> skip_trivia(old(self).chars@, old(self).index as int, Trivia::Code)
                == Err::<int, int>(old(self).index as int) && final(self).index
                == final(self).chars@.len() && r == Err::<(), LexerError>(
                LexerError::UnterminatedComment {
                    position: position_at(old(self).chars@, old(self).index as int),
                },
            ),
    {
        let ghost s = self.chars@;
        let ghost buf = self.chars;
        let ghost i0 = self.index as int;
        let opening = self.current_position;
        if self.peek_next() == Some('/') {
            self.advance();
            self.advance();
            while self.index < self.chars.len() && self.chars[self.index] != '\n'
                invariant
                    self.wf(),
                    self.chars == buf,
                self.chars@ == s,
                    i0 + 2 <= self.index,
                    skip_trivia(s, self.index as int, Trivia::Line) == skip_trivia(
                        s,
                        i0,
                        Trivia::Code,
                    ),
                decreases s.len() - self.index,
            {
                self.advance();
            }
            return Ok(());
        }
        self.advance();
        self.advance();
        let mut depth: usize = 1;
        while depth > 0 && self.index < self.chars.len()
            invariant
                self.wf(),
                self.chars == buf,
                self.chars@ == s,
                i0 + 2 <= self.index,
                depth <= self.index,
                depth > 0 ==> skip_trivia(
                    s,
                    self.index as int,
                    Trivia::Block { start: i0, depth: depth as nat },
                ) == skip_trivia(s, i0, Trivia::Code),
                depth == 0 ==> skip_trivia(s, self.index as int, Trivia::Code) == skip_trivia(
                    s,
                    i0,
                    Trivia::Code,
                ),
            decreases s.len() - self.index,
        {
            let c = self.chars[self.index];
            let n = self.peek_next();
            if c == '/' && n == Some('*') {
                self.advance();
                self.advance();
                depth = depth + 1;
            } else if c == '*' && n == Some('/') {
                self.advance();
                self.advance();
                depth = depth - 1;
            } else {
                self.advance();
            }
        }
        if depth > 0 {
            return Err(self.error(LexerError::UnterminatedComment { position: opening }));
        }
        Ok(())
    }

    /// Scans a string literal whose opening quote has been read.
    fn scan_string(&mut self) -> (r: LexerResult<Token>)
        requires
            old(self).wf(),
            old(self).index == old(self).start_index + 1,
            old(self).start_index < old(self).chars@.len(),
            old(self).chars@[old(self).start_index as int] == '"',
        ensures
            final(self).wf(),
            final(self).chars == old(self).chars,
            final(self).index == token_end(old(self).chars@, old(self).start_index as int),
            token_outcome(old(self).chars@, old(self).start_index as int, r),
    {
        let ghost s = self.chars@;
        let ghost buf = self.chars;
        let ghost j = self.start_index as int;
        proof {
            lemma_runs_forward(s, j + 1);
        }
        while self.index < self.chars.len() && self.chars[self.index] != '"' && self.chars[self.index]
            != '\n'
            invariant
                self.wf(),
                self.chars == buf,
                self.chars@ == s,
                self.start_index == j,
                j + 1 <= self.index,
                string_stop(s, self.index as int) == string_stop(s, j + 1),
            decreases s.len() - self.index,
        {
            let c = self.chars[self.index];
            self.advance();
            if c == '\\' {
                self.advance();
            }
        }
        if self.index < self.chars.len() && self.chars[self.index] == '"' {
            self.advance();
            let content = text_between(&self.chars, self.start_index + 1, self.index - 1);
            return Ok(self.make_token(TokenKind::StringLiteral(content)));
        }
        Err(self.error(LexerError::UnterminatedString { position: self.start_position }))
    }

    /// Scans a number whose first character (a digit, or `-` before a digit) has been read.
    fn scan_number(&mut self) -> (r: LexerResult<Token>)
        requires
            old(self).wf(),
            old(self).index == old(self).start_index + 1,
            old(self).start_index < old(self).chars@.len(),
            number_starts(old(self).chars@, old(self).start_index as int),
        ensures
            final(self).wf(),
            final(self).chars == old(self).chars,
            final(self).index == token_end(old(self).chars@, old(self).start_index as int),
            token_outcome(old(self).chars@, old(self).start_index as int, r),
    {
        let ghost s = self.chars@;
        let ghost buf = self.chars;
        let ghost j = self.start_index as int;
        proof {
            lemma_runs_forward(s, j + 1);
        }
        while self.index < self.chars.len() && digit(self.chars[self.index])
            invariant
                self.wf(),
                self.chars == buf,
                self.chars@ == s,
                self.start_index == j,
                j + 1 <= self.index,
                digits_end(s, self.index as int) == digits_end(s, j + 1),
            decreases s.len() - self.index,
        {
            self.advance();
        }
        let int_end = self.index;
        if self.index < self.chars.len() && self.chars[self.index] == '.' {
            self.advance();
            proof {
                lemma_runs_forward(s, int_end + 1);
            }
            while self.index < self.chars.len() && digit(self.chars[self.index])
                invariant
                    self.wf(),
                    self.chars == buf,
                self.chars@ == s,
                    self.start_index == j,
                    int_end + 1 <= self.index,
                    digits_end(s, self.index as int) == digits_end(s, int_end + 1),
                decreases s.len() - self.index,
            {
                self.advance();
            }
            if self.index == int_end + 1 {
                return Err(
                    self.error(
                        LexerError::InvalidNumber {
                            position: self.start_position,
                            lexeme: self.current_lexeme.clone(),
                        },
                    ),
                );
            }
            let text = self.current_lexeme.clone();
            return Ok(self.make_token(TokenKind::FloatLiteral(text)));
        }
        proof {
            assert forall|k: int| self.start_index < k < int_end implies is_digit(#[trigger] s[k]) by {
                assert(j + 1 <= k < digits_end(s, j + 1));
            }
        }
        match parse_int(&self.chars, self.start_index, self.index) {
            Some(v) => Ok(self.make_token(TokenKind::IntLiteral(v))),
            None => Err(
                self.error(
                    LexerError::InvalidNumber {
                        position: self.start_position,
                        lexeme: self.current_lexeme.clone(),
                    },
                ),
            ),
        }
    }

    /// Scans a name whose first character has been read: a reserved word or an identifier.
    fn scan_identifier_or_keyword(&mut self) -> (r: LexerResult<Token>)
        requires
            old(self).wf(),
            old(self).index == old(self).start_index + 1,
            old(self).start_index < old(self).chars@.len(),
            is_name_start(old(self).chars@[old(self).start_index as int]),
        ensures
            final(self).wf(),
            final(self).chars == old(self).chars,
            final(self).index == token_end(old(self).chars@, old(self).start_index as int),
            token_outcome(old(self).chars@, old(self).start_index as int, r),
    {
        let ghost s = self.chars@;
        let ghost buf = self.chars;
        let ghost j = self.start_index as int;
        proof {
            lemma_runs_forward(s, j + 1);
        }
        while self.index < self.chars.len() && name_char(self.chars[self.index])
            invariant
                self.wf(),
                self.chars == buf,
                self.chars@ == s,
                self.start_index == j,
                j + 1 <= self.index,
                name_end(s, self.index as int) == name_end(s, j + 1),
            decreases s.len() - self.index,
        {
            self.advance();
        }
        if self.index - self.start_index > MAX_IDENTIFIER_LEN {
            return Err(self.error(LexerError::IdentifierTooLong { position: self.start_position }));
        }
        match keyword_of(&self.chars, self.start_index, self.index) {
            Some(kind) => Ok(self.make_token(kind)),
            None => {
                let name = self.current_lexeme.clone();
                Ok(self.make_token(TokenKind::Identifier(name)))
            },
        }
    }

    /// Scans an operator or delimiter whose first character `c` has been read.
    fn scan_operator(&mut self, c: char) -> (r: LexerResult<Token>)
        requires
            old(self).wf(),
            old(self).index == old(self).start_index + 1,
            old(self).start_index < old(self).chars@.len(),
            c == old(self).chars@[old(self).start_index as int],
            !number_starts(old(self).chars@, old(self).start_index as int),
            c != '"',
            !is_name_start(c),
        ensures
            final(self).wf(),
            final(self).chars == old(self).chars,
            final(self).index == token_end(old(self).chars@, old(self).start_index as int),
            token_outcome(old(self).chars@, old(self).start_index as int, r),
    {
        match self.peek() {
            Some(n) => match pair_kind(c, n) {
                Some(kind) => {
                    self.advance();
                    return Ok(self.make_token(kind));
                },
                None => {},
            },
            None => {},
        }
        match single_kind(c) {
            Some(kind) => Ok(self.make_token(kind)),
            None => Err(
                self.error(
                    LexerError::UnexpectedCharacter { position: self.start_position, character: c },
                ),
            ),
        }
    }

    /// Reads the next token, or the error that the text at the cursor is.
    /// At the end of the text it returns the end-of-file token, as often as it is called.
    pub fn next_token(&mut self) -> (r: LexerResult<Token>)
        requires
            old(self).wf(),
        ensures
            final(self).wf(),
            final(self).buffer() == old(self).buffer(),
            final(self).source() == old(self).source(),
            next_outcome(old(self).source(), old(self).cursor(), r),
            final(self).cursor() == next_index(old(self).source(), old(self).cursor()),
    {
        let ghost s = self.chars@;
        let ghost buf = self.chars;
        let ghost i0 = self.index as int;
        self.start_token();
        self.skip_whitespace();
        while self.index + 1 < self.chars.len() && self.chars[self.index] == '/' && (self.chars[self.index
            + 1] == '/' || self.chars[self.index + 1] == '*')
            invariant
                self.wf(),
                self.chars == buf,
                self.chars@ == s,
                i0 <= self.index,
                self.start_index == self.index,
                buf == old(self).chars,
                s == old(self).chars@,
                i0 == old(self).index,
                skip_trivia(s, i0, Trivia::Code) == skip_trivia(s, self.index as int, Trivia::Code),
                self.index < s.len() ==> !is_space(s[self.index as int]),
            decreases s.len() - self.index,
        {
            match self.skip_comments() {
                Ok(()) => {
                    self.skip_whitespace();
                },
                Err(e) => {
                    let mut recovery = self.error_recovery;
                    recovery.mark_recovered(self.start_position);
                    self.error_recovery = recovery;
                    return Err(e);
                },
            }
        }
        let ghost j = self.index as int;
        if self.is_at_end() {
            proof {
                lemma_line_col_bounds(s, j);
            }
            return Ok(Token::eof(self.current_position));
        }
        assert(skip_trivia(s, j, Trivia::Code) == Ok::<int, int>(j));
        let c = self.chars[self.index];
        self.advance();
        if c == '"' {
            self.scan_string()
        } else if digit(c) || (c == '-' && self.index < self.chars.len() && digit(
            self.chars[self.index],
        )) {
            self.scan_number()
        } else if name_start(c) {
            self.scan_identifier_or_keyword()
        } else {
            self.scan_operator(c)
        }
    }

    /// The token `next_token` would return now, without moving the scanner.
    pub fn peek_token(&mut self) -> (r: LexerResult<Token>)
        requires
            old(self).wf(),
        ensures
            *final(self) == *old(self),
            next_outcome(old(self).source(), old(self).cursor(), r),
    {
        let saved_index = self.index;
        let saved_position = self.current_position;
        let saved_start = self.start_position;
        let saved_start_index = self.start_index;
        let saved_lexeme = self.current_lexeme.clone();
        let saved_recovery = self.error_recovery;
        let token = self.next_token();
        self.index = saved_index;
        self.current_position = saved_position;
        self.start_position = saved_start;
        self.start_index = saved_start_index;
        self.current_lexeme = saved_lexeme;
        self.error_recovery = saved_recovery;
        token
    }

    /// Scans the rest of the text: every token up to and including the
    /// end-of-file token, and every error. After an error the scanner skips
    /// one more character and goes on.
    pub fn scan_all(&mut self) -> (r: (Vec<Token>, Vec<LexerError>))
        requires
            old(self).wf(),
        ensures
            final(self).wf(),
            final(self).source() == old(self).source(),
            scan_trace(old(self).source(), old(self).cursor(), r.0@, r.1@),
    {
        let ghost s = self.chars@;
        let ghost i0 = self.index as int;
        let mut tokens: Vec<Token> = Vec::new();
        let mut errors: Vec<LexerError> = Vec::new();
        loop
            invariant_except_break
                forall|t: Seq<Token>, e: Seq<LexerError>|
                    #[trigger] scan_trace(s, self.index as int, t, e) ==> scan_trace(
                        s,
                        i0,
                        tokens@ + t,
                        errors@ + e,
                    ),
            invariant
                self.wf(),
                self.chars@ == s,
                s == old(self).chars@,
                i0 == old(self).index,
                i0 <= self.index <= s.len(),
            ensures
                self.wf(),
                self.chars@ == s,
                scan_trace(s, i0, tokens@, errors@),
            decreases s.len() - self.index,
        {
            let ghost i = self.index as int;
            let ghost before_tokens = tokens@;
            let ghost before_errors = errors@;
            proof {
                lemma_next_progress(s, i);
            }
            match self.next_token() {
                Ok(token) => {
                    proof {
                        lemma_outcome_agrees(s, i, Ok(token));
                    }
                    let is_eof = token.is_eof();
                    tokens.push(token);
                    if is_eof {
                        proof {
                            assert(scan_trace(s, i, seq![token], Seq::empty()));
                            assert(before_tokens + seq![token] =~= tokens@);
                            assert(before_errors + Seq::<LexerError>::empty() =~= errors@);
                        }
                        break;
                    }
                    proof {
                        let n = next_index(s, i);
                        assert forall|t: Seq<Token>, e: Seq<LexerError>|
                            #[trigger] scan_trace(s, n, t, e) implies scan_trace(
                                s,
                                i0,
                                tokens@ + t,
                                errors@ + e,
                            ) by {
                            assert((seq![token] + t).drop_first() =~= t);
                            assert(scan_trace(s, i, seq![token] + t, e));
                            assert(before_tokens + (seq![token] + t) =~= tokens@ + t);
                        }
                    }
                },
                Err(error) => {
                    proof {
                        lemma_outcome_agrees(s, i, Err(error));
                    }
                    errors.push(error);
                    let mut recovery = self.error_recovery;
                    recovery.mark_recovered(self.start_position);
                    self.error_recovery = recovery;
                    if self.index < self.chars.len() {
                        self.advance();
                        let mut recovery = self.error_recovery;
                        recovery.skip_char();
                        self.error_recovery = recovery;
                    }
                    proof {
                        let n = resume_index(s, i);
                        assert(self.index == n);
                        assert forall|t: Seq<Token>, e: Seq<LexerError>|
                            #[trigger] scan_trace(s, n, t, e) implies scan_trace(
                                s,
                                i0,
                                tokens@ + t,
                                errors@ + e,
                            ) by {
                            assert((seq![error] + e).drop_first() =~= e);
                            assert(scan_trace(s, i, t, seq![error] + e));
                            assert(before_errors + (seq![error] + e) =~= errors@ + e);
                        }
                    }
                },
            }
        }
        (tokens, errors)
    }
}

} // verus!
