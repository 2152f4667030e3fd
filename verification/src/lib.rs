//! A tokenizer for a small C-like scripting language.
//!
//! The library turns raw source text into a flat sequence of classified
//! [`Token`] values. Scanning is character based, uses maximal munch for
//! identifiers, integer literals and the two-character operators `==` and
//! `!=`, and never aborts: input it cannot classify degrades to
//! [`Token::Illegal`] tokens and scanning continues.

pub mod laws;
pub mod lexer;
pub mod repl;
pub mod scan;
pub mod token;

pub use lexer::Lexer;
pub use repl::Repl;
pub use token::Token;
pub use token::TokenView;
