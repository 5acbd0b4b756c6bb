//! Divides Rust 2018 code into lexemes.

pub mod ascii;
pub mod identify;
pub mod isolation;
pub mod lexeme;
pub mod lexemize;
pub mod partition;
pub mod render;
pub mod text;
