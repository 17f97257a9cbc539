//! Preprocessor errors: each one stops `process`.

use vstd::prelude::*;

use crate::common::position::Position;
use crate::common::text::{push_char, push_text};

verus! {

#[derive(Debug, Clone, PartialEq, Eq)]
pub enum PreprocessorError {
    UnterminatedComment { position: Position },
    InvalidDirective { position: Position, directive: String, reason: String },
    UnmatchedEndif { position: Position },
    UnterminatedConditional { position: Position },
    InvalidMacroName { name: String },
    MacroRecursion { name: String },
    /// Reserved for expansion faults other than recursion.
    MacroExpansion { message: String },
    UnmatchedElse { position: Position },
    /// Reserved.
    UnexpectedEndif { position: Position },
    /// Reserved for reporting a whole cycle of macros.
    MacroCycle { cycle: Vec<String> },
    /// Reserved: undefined names pass through unchanged.
    UndefinedMacro { position: Position, name: String },
    /// Reserved.
    InvalidSyntax { position: Position, details: String },
}

/// `"a", "b"` for the names `a` and `b`.
pub open spec fn quoted_list(names: Seq<String>) -> Seq<char>
    decreases names.len(),
{
    if names.len() == 0 {
        Seq::empty()
    } else if names.len() == 1 {
        seq!['"'] + names[0]@ + seq!['"']
    } else {
        quoted_list(names.drop_last()) + ", "@ + seq!['"'] + names.last()@ + seq!['"']
    }
}

impl PreprocessorError {
    /// The message of the error.
    pub open spec fn text(&self) -> Seq<char> {
        match *self {
            PreprocessorError::UnterminatedComment { position } => position.text()
                + ": Незавершенный многострочный комментарий"@,
            PreprocessorError::InvalidDirective { position, directive, reason } => position.text()
                + ": Некорректная директива препроцессора '"@ + directive@ + "': "@ + reason@,
            PreprocessorError::UnmatchedEndif { position } => position.text()
                + ": Непарная директива #endif"@,
            PreprocessorError::UnterminatedConditional { position } => position.text()
                + ": Незавершенная условная директива"@,
            PreprocessorError::InvalidMacroName { name } => "Некорректное имя макроса: '"@ + name@
                + "'"@,
            PreprocessorError::MacroRecursion { name } => "Рекурсивное определение макроса: '"@
                + name@ + "'"@,
            PreprocessorError::MacroExpansion { message } => "Ошибка подстановки макроса: "@
                + message@,
            PreprocessorError::UnmatchedElse { position } => position.text()
                + ": Непарная директива #else"@,
            PreprocessorError::UnexpectedEndif { position } => position.text()
                + ": Неожиданная директива #endif"@,
            PreprocessorError::MacroCycle { cycle } => "Циклическая зависимость макросов: ["@
                + quoted_list(cycle@) + "]"@,
            PreprocessorError::UndefinedMacro { position, name } => position.text()
                + ": Макрос '"@ + name@ + "' не определен"@,
            PreprocessorError::InvalidSyntax { position, .. } => position.text()
                + ": Некорректный синтаксис директивы"@,
        }
    }

    /// The message of the error.
    pub fn to_string(&self) -> (r: String)
        ensures
            r@ == self.text(),
    {
        let mut r = String::new();
        match self {
            PreprocessorError::UnterminatedComment { position } => {
                position.write_to(&mut r);
                push_text(&mut r, ": Незавершенный многострочный комментарий");
            },
            PreprocessorError::InvalidDirective { position, directive, reason } => {
                position.write_to(&mut r);
                push_text(&mut r, ": Некорректная директива препроцессора '");
                push_text(&mut r, directive.as_str());
                push_text(&mut r, "': ");
                push_text(&mut r, reason.as_str());
            },
            PreprocessorError::UnmatchedEndif { position } => {
                position.write_to(&mut r);
                push_text(&mut r, ": Непарная директива #endif");
            },
            PreprocessorError::UnterminatedConditional { position } => {
                position.write_to(&mut r);
                push_text(&mut r, ": Незавершенная условная директива");
            },
            PreprocessorError::InvalidMacroName { name } => {
                push_text(&mut r, "Некорректное имя макроса: '");
                push_text(&mut r, name.as_str());
                push_text(&mut r, "'");
            },
            PreprocessorError::MacroRecursion { name } => {
                push_text(&mut r, "Рекурсивное определение макроса: '");
                push_text(&mut r, name.as_str());
                push_text(&mut r, "'");
            },
            PreprocessorError::MacroExpansion { message } => {
                push_text(&mut r, "Ошибка подстановки макроса: ");
                push_text(&mut r, message.as_str());
            },
            PreprocessorError::UnmatchedElse { position } => {
                position.write_to(&mut r);
                push_text(&mut r, ": Непарная директива #else");
            },
            PreprocessorError::UnexpectedEndif { position } => {
                position.write_to(&mut r);
                push_text(&mut r, ": Неожиданная директива #endif");
            },
            PreprocessorError::MacroCycle { cycle } => {
                push_text(&mut r, "Циклическая зависимость макросов: [");
                let ghost head = r@;
                let mut i: usize = 0;
                while i < cycle.len()
                    invariant
                        i <= cycle.len(),
                        r@ == head + quoted_list(cycle@.subrange(0, i as int)),
                    decreases cycle.len() - i,
                {
                    let ghost before = r@;
                    if i > 0 {
                        push_text(&mut r, ", ");
                    }
                    push_char(&mut r, '"');
                    push_text(&mut r, cycle[i].as_str());
                    push_char(&mut r, '"');
                    proof {
                        let prefix = cycle@.subrange(0, i + 1);
                        assert(prefix.drop_last() =~= cycle@.subrange(0, i as int));
                        if i > 0 {
                            assert(r@ =~= head + quoted_list(prefix));
                        } else {
                            assert(cycle@.subrange(0, 0 as int) =~= Seq::<String>::empty());
                            assert(r@ =~= head + quoted_list(prefix));
                        }
                    }
                    i = i + 1;
                }
                assert(cycle@.subrange(0, cycle@.len() as int) =~= cycle@);
                push_text(&mut r, "]");
            },
            PreprocessorError::UndefinedMacro { position, name } => {
                position.write_to(&mut r);
                push_text(&mut r, ": Макрос '");
                push_text(&mut r, name.as_str());
                push_text(&mut r, "' не определен");
            },
            PreprocessorError::InvalidSyntax { position, .. } => {
                position.write_to(&mut r);
                push_text(&mut r, ": Некорректный синтаксис директивы");
            },
        }
        assert(r@ =~= self.text());
        r
    }
}

} // verus!
