//! The scanner and its errors.

pub mod error;
pub mod grammar;
pub mod scanner;

pub use error::{ErrorRecovery, LexerError, LexerErrorExt, LexerResult};
pub use scanner::Scanner;
