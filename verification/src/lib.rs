//! A tokenizer for an Elixir-like surface syntax.
//!
//! The library scans a complete source buffer in a single forward pass with
//! bounded lookahead and produces spanned tokens or lexical errors.  Rules are
//! tried in a fixed priority order on every pull: the version-control conflict
//! guard, the numeric-literal scanner, the comment/whitespace skipper, the
//! sigil and character-literal introducer recognizer, the quoted-operator-atom
//! scanner, the keyword scanner, and finally the identifier scanner.  Every
//! rule fully tests its pattern through lookahead before consuming anything,
//! and a longer match always wins over a shorter one.
//!
//! The exact behaviour of a pull is captured by the specification model in
//! [`model`]: the executable lexer in [`lexer`] is proved to follow it.

pub mod ast;
pub mod classify;
pub mod laws;
pub mod lexer;
pub mod model;
pub mod natural;
pub mod token;
