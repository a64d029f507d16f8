//! Unimarkup: tokenizer for inline markup, block-level parser helpers, and renderer data structures.
pub mod lexer;
pub mod parser;
pub mod render;
pub mod text;
pub mod tokenize;
pub mod tokenizer;

pub use tokenizer::tokens::{AsSingleTokenKind, Newline, Position, SingleTokenKind, Token, TokenKind, Tokens};
pub use tokenizer::InlineError;
pub use tokenizer::Tokenizer;
pub use tokenizer::try_tokenize;
