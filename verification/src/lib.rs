//! A scanner for a small C-like scripting language: source text in, tokens out.
//!
//! - [`grammar`] says, over sequences of characters, what the tokens of a
//!   source text are.
//! - [`cursor`] keeps a position in the text, and the line.
//! - [`lexer`] reads the tokens, and is proved to read what the grammar says.
//! - [`laws`] holds what follows for every source text.
//! - [`token`] and [`chars`] hold the tokens, the reserved words and the
//!   classes of characters.

pub mod chars;
pub mod cursor;
pub mod grammar;
pub mod laws;
pub mod lexer;
pub mod token;
