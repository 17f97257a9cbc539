//! Lexical errors and the scanner's recovery bookkeeping.

use vstd::prelude::*;

use crate::common::position::Position;
use crate::common::text::{decimal, push_char, push_decimal, push_text};

verus! {

/// A fault found while scanning, with the position at which it was detected.
#[derive(Debug, Clone, PartialEq, Eq)]
pub enum LexerError {
    UnexpectedCharacter { position: Position, character: char },
    UnterminatedString { position: Position },
    InvalidNumber { position: Position, lexeme: String },
    IdentifierTooLong { position: Position },
    UnterminatedComment { position: Position },
    /// Reserved: the scanner accepts every escape sequence.
    InvalidEscapeSequence { position: Position, sequence: String },
    EmptyInput { position: Position },
}

pub type LexerResult<T> = Result<T, LexerError>;

impl LexerError {
    pub open spec fn pos(&self) -> Position {
        match *self {
            LexerError::UnexpectedCharacter { position, .. } => position,
            LexerError::UnterminatedString { position } => position,
            LexerError::InvalidNumber { position, .. } => position,
            LexerError::IdentifierTooLong { position } => position,
            LexerError::UnterminatedComment { position } => position,
            LexerError::InvalidEscapeSequence { position, .. } => position,
            LexerError::EmptyInput { position } => position,
        }
    }

    /// The full message: the position, a colon and the description.
    pub open spec fn text(&self) -> Seq<char> {
        self.pos().text() + ": "@ + match *self {
            LexerError::UnexpectedCharacter { character, .. } =>
                "Неожиданный символ '"@ + seq![character] + "'"@,
            LexerError::UnterminatedString { .. } => "Незавершенная строковая константа"@,
            LexerError::InvalidNumber { lexeme, .. } =>
                "Некорректный числовой формат: '"@ + lexeme@ + "'"@,
            LexerError::IdentifierTooLong { .. } =>
                "Слишком длинный идентификатор (максимум 255 символов)"@,
            LexerError::UnterminatedComment { .. } =>
                "Незавершенный многострочный комментарий"@,
            LexerError::InvalidEscapeSequence { sequence, .. } =>
                "Некорректная escape-последовательность '"@ + sequence@ + "' в строке"@,
            LexerError::EmptyInput { .. } => "Пустой ввод или нулевой символ"@,
        }
    }

    /// A short description for a reader of the source.
    pub open spec fn user_text(&self) -> Seq<char> {
        match *self {
            LexerError::UnexpectedCharacter { character, .. } =>
                "Недопустимый символ '"@ + seq![character] + "'"@,
            LexerError::UnterminatedString { .. } => "Строковая константа не закрыта"@,
            LexerError::InvalidNumber { lexeme, .. } => "Некорректное число '"@ + lexeme@ + "'"@,
            LexerError::IdentifierTooLong { .. } => "Слишком длинное имя переменной"@,
            LexerError::UnterminatedComment { .. } => "Комментарий не закрыт"@,
            LexerError::InvalidEscapeSequence { sequence, .. } =>
                "Некорректная escape-последовательность '"@ + sequence@ + "'"@,
            LexerError::EmptyInput { .. } => "Пустой ввод"@,
        }
    }

    /// How the fault can be fixed.
    pub open spec fn hint(&self) -> Seq<char> {
        match *self {
            LexerError::UnexpectedCharacter { character, .. } =>
                "Удалите символ '"@ + seq![character] + "' или замените его на допустимый"@,
            LexerError::UnterminatedString { .. } =>
                "Добавьте закрывающую кавычку \" в конце строки"@,
            LexerError::InvalidNumber { .. } =>
                "Исправьте формат числа (например, 123 или 123.45)"@,
            LexerError::IdentifierTooLong { .. } => "Сократите имя переменной до 255 символов"@,
            LexerError::UnterminatedComment { .. } => "Добавьте */ в конце комментария"@,
            LexerError::InvalidEscapeSequence { sequence, .. } =>
                "Используйте допустимые escape-последовательности: \\n, \\t, \\r, \\\\, \\\", \\' (вместо "@
                    + sequence@ + ")"@,
            LexerError::EmptyInput { .. } => "Введите исходный код"@,
        }
    }

    pub fn position(&self) -> (r: Position)
        ensures
            r == self.pos(),
    {
        match self {
            LexerError::UnexpectedCharacter { position, .. } => *position,
            LexerError::UnterminatedString { position } => *position,
            LexerError::InvalidNumber { position, .. } => *position,
            LexerError::IdentifierTooLong { position } => *position,
            LexerError::UnterminatedComment { position } => *position,
            LexerError::InvalidEscapeSequence { position, .. } => *position,
            LexerError::EmptyInput { position } => *position,
        }
    }

    /// The full message: the position, a colon and the description.
    pub fn to_string(&self) -> (r: String)
        ensures
            r@ == self.text(),
    {
        let mut r = String::new();
        self.position().write_to(&mut r);
        push_text(&mut r, ": ");
        let ghost head = r@;
        match self {
            LexerError::UnexpectedCharacter { character, .. } => {
                push_text(&mut r, "Неожиданный символ '");
                push_char(&mut r, *character);
                push_text(&mut r, "'");
            },
            LexerError::UnterminatedString { .. } => {
                push_text(&mut r, "Незавершенная строковая константа");
            },
            LexerError::InvalidNumber { lexeme, .. } => {
                push_text(&mut r, "Некорректный числовой формат: '");
                push_text(&mut r, lexeme.as_str());
                push_text(&mut r, "'");
            },
            LexerError::IdentifierTooLong { .. } => {
                push_text(&mut r, "Слишком длинный идентификатор (максимум 255 символов)");
            },
            LexerError::UnterminatedComment { .. } => {
                push_text(&mut r, "Незавершенный многострочный комментарий");
            },
            LexerError::InvalidEscapeSequence { sequence, .. } => {
                push_text(&mut r, "Некорректная escape-последовательность '");
                push_text(&mut r, sequence.as_str());
                push_text(&mut r, "' в строке");
            },
            LexerError::EmptyInput { .. } => {
                push_text(&mut r, "Пустой ввод или нулевой символ");
            },
        }
        assert(r@ =~= self.text());
        r
    }

    /// A short description for a reader of the source.
    pub fn user_message(&self) -> (r: String)
        ensures
            r@ == self.user_text(),
    {
        let mut r = String::new();
        match self {
            LexerError::UnexpectedCharacter { character, .. } => {
                push_text(&mut r, "Недопустимый символ '");
                push_char(&mut r, *character);
                push_text(&mut r, "'");
            },
            LexerError::UnterminatedString { .. } => {
                push_text(&mut r, "Строковая константа не закрыта");
            },
            LexerError::InvalidNumber { lexeme, .. } => {
                push_text(&mut r, "Некорректное число '");
                push_text(&mut r, lexeme.as_str());
                push_text(&mut r, "'");
            },
            LexerError::IdentifierTooLong { .. } => {
                push_text(&mut r, "Слишком длинное имя переменной");
            },
            LexerError::UnterminatedComment { .. } => {
                push_text(&mut r, "Комментарий не закрыт");
            },
            LexerError::InvalidEscapeSequence { sequence, .. } => {
                push_text(&mut r, "Некорректная escape-последовательность '");
                push_text(&mut r, sequence.as_str());
                push_text(&mut r, "'");
            },
            LexerError::EmptyInput { .. } => {
                push_text(&mut r, "Пустой ввод");
            },
        }
        assert(r@ =~= self.user_text());
        r
    }

    /// How the fault can be fixed.
    pub fn suggestion(&self) -> (r: Option<String>)
        ensures
            r is Some && r->0@ == self.hint(),
    {
        let mut r = String::new();
        match self {
            LexerError::UnexpectedCharacter { character, .. } => {
                push_text(&mut r, "Удалите символ '");
                push_char(&mut r, *character);
                push_text(&mut r, "' или замените его на допустимый");
            },
            LexerError::UnterminatedString { .. } => {
                push_text(&mut r, "Добавьте закрывающую кавычку \" в конце строки");
            },
            LexerError::InvalidNumber { .. } => {
                push_text(&mut r, "Исправьте формат числа (например, 123 или 123.45)");
            },
            LexerError::IdentifierTooLong { .. } => {
                push_text(&mut r, "Сократите имя переменной до 255 символов");
            },
            LexerError::UnterminatedComment { .. } => {
                push_text(&mut r, "Добавьте */ в конце комментария");
            },
            LexerError::InvalidEscapeSequence { sequence, .. } => {
                push_text(
                    &mut r,
                    "Используйте допустимые escape-последовательности: \\n, \\t, \\r, \\\\, \\\", \\' (вместо ",
                );
                push_text(&mut r, sequence.as_str());
                push_text(&mut r, ")");
            },
            LexerError::EmptyInput { .. } => {
                push_text(&mut r, "Введите исходный код");
            },
        }
        assert(r@ =~= self.hint());
        Some(r)
    }
}

/// Position, message and fix hint of a lexical error, as one interface.
pub trait LexerErrorExt {
    fn position(&self) -> Position;

    fn user_message(&self) -> String;

    fn suggestion(&self) -> Option<String>;
}

impl LexerErrorExt for LexerError {
    fn position(&self) -> Position {
        LexerError::position(self)
    }

    fn user_message(&self) -> String {
        LexerError::user_message(self)
    }

    fn suggestion(&self) -> Option<String> {
        LexerError::suggestion(self)
    }
}

/// Diagnostic record of the scanner's recovery from errors; it does not affect scanning.
#[derive(Debug, Clone, Copy, PartialEq, Eq, Structural)]
pub struct ErrorRecovery {
    skipped_chars: usize,
    recovered: bool,
    last_error_position: Option<Position>,
}

impl ErrorRecovery {
    pub closed spec fn skipped(&self) -> nat {
        self.skipped_chars as nat
    }

    pub closed spec fn recovered_flag(&self) -> bool {
        self.recovered
    }

    pub closed spec fn last_error(&self) -> Option<Position> {
        self.last_error_position
    }

    pub fn new() -> (r: Self)
        ensures
            r.skipped() == 0,
            !r.recovered_flag(),
            r.last_error() is None,
    {
        ErrorRecovery { skipped_chars: 0, recovered: false, last_error_position: None }
    }

    pub fn skip_char(&mut self)
        requires
            old(self).skipped() < usize::MAX,
        ensures
            final(self).skipped() == old(self).skipped() + 1,
            final(self).recovered_flag() == old(self).recovered_flag(),
            final(self).last_error() == old(self).last_error(),
    {
        self.skipped_chars = self.skipped_chars + 1;
    }

    pub fn skip_chars(&mut self, count: usize)
        requires
            old(self).skipped() + count <= usize::MAX,
        ensures
            final(self).skipped() == old(self).skipped() + count,
            final(self).recovered_flag() == old(self).recovered_flag(),
            final(self).last_error() == old(self).last_error(),
    {
        self.skipped_chars = self.skipped_chars + count;
    }

    pub fn mark_recovered(&mut self, position: Position)
        ensures
            final(self).skipped() == old(self).skipped(),
            final(self).recovered_flag(),
            final(self).last_error() == Some(position),
    {
        self.recovered = true;
        self.last_error_position = Some(position);
    }

    pub fn reset(&mut self)
        ensures
            final(self).skipped() == 0,
            !final(self).recovered_flag(),
            final(self).last_error() is None,
    {
        self.skipped_chars = 0;
        self.recovered = false;
        self.last_error_position = None;
    }

    pub fn is_recovered(&self) -> (r: bool)
        ensures
            r == self.recovered_flag(),
    {
        self.recovered
    }

    pub fn skipped_chars(&self) -> (r: usize)
        ensures
            r == self.skipped(),
    {
        self.skipped_chars
    }

    pub fn last_error_position(&self) -> (r: Option<Position>)
        ensures
            r == self.last_error(),
    {
        self.last_error_position
    }

    /// A one-line summary of the last recovery.
    pub fn debug_info(&self) -> (r: String)
        ensures
            r@ == (match self.last_error() {
                Some(p) => "Восстановление после ошибки на позиции "@ + p.text()
                    + ", пропущено символов: "@ + decimal(self.skipped()),
                None => "Ошибок восстановления не было"@,
            }),
    {
        let mut r = String::new();
        match self.last_error_position {
            Some(p) => {
                push_text(&mut r, "Восстановление после ошибки на позиции ");
                p.write_to(&mut r);
                push_text(&mut r, ", пропущено символов: ");
                push_decimal(&mut r, self.skipped_chars);
            },
            None => {
                push_text(&mut r, "Ошибок восстановления не было");
            },
        }
        r
    }
}

impl Default for ErrorRecovery {
    fn default() -> (r: Self)
        ensures
            r.skipped() == 0,
            !r.recovered_flag(),
            r.last_error() is None,
    {
        Self::new()
    }
}

} // verus!
