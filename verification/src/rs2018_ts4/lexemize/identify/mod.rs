//! Functions for identifying lexemes in Rust 2018 code.
//!
//! Each takes the whole input and a byte position, and returns either the
//! same position (no match) or the position just after the lexeme that
//! starts there. None of them has a precondition: each returns for every
//! input and for every position, within the input or beyond its end, on a
//! character boundary or inside a character.

pub mod character;
pub mod comment;
pub mod identifier;
pub mod number;
pub mod punctuation;
pub mod string;
pub mod whitespace;
