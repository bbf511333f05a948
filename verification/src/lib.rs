//! Lexical scanner for a small C-like scripting language.
//!
//! The scanner turns raw source text into a flat sequence of typed tokens,
//! collecting lexical errors along the way instead of halting at the first
//! one. The whole pass is specified against a ghost state machine over the
//! source's character sequence, and the executable scanner is proved to
//! follow it exactly.

pub mod error;
pub mod laws;
pub mod scanner;
pub mod scan_model;
pub mod text;
pub mod token;

pub use error::ScannerError;
pub use error::ScannerErrorV;
pub use scanner::Scanner;
pub use token::Literal;
pub use token::LiteralV;
pub use token::Token;
pub use token::TokenType;
pub use token::TokenV;
