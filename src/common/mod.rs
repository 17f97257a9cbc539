//! Shared data model: positions, tokens and the text helpers they rest on.

pub mod position;
pub mod text;
pub mod token;
pub mod utils;

pub use position::Position;
pub use token::{token_type_name, Token, TokenKind};
