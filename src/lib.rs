//! A scanner that turns the source text of a small C-like scripting language
//! into a stream of classified tokens.

pub mod lexer;
pub mod stream;
pub mod token;

pub use lexer::{LexError, Lexer};
pub use token::{lookup_ident, Token, TokenType};
