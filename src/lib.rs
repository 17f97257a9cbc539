//! Front end of a small C-like language: a preprocessor that strips comments,
//! expands object-like macros and resolves conditional blocks, and a scanner
//! that turns the normalized text into positioned tokens with error recovery.

pub mod common;
pub mod compiler;
pub mod laws;
pub mod lexer;
pub mod preprocessor;
pub mod report;
pub mod utils;

pub use common::{Position, Token, TokenKind};
pub use lexer::{LexerError, LexerResult, Scanner};
pub use preprocessor::{Preprocessor, PreprocessorError};
