//! A lexical scanner for Rust 2018 source text, and the first pieces of a
//! Rust-to-TypeScript transpiler built on top of it.
//!
//! The scanner partitions any UTF-8 input into classified lexemes. Every
//! classifier is a total function of the input bytes and a byte offset, and
//! each one is specified by a mathematical model over `Seq<u8>`.

pub mod rs2018_ts4;
pub mod transpile;
