//! Tools for working with Rust 2018 code on its way to TypeScript 4.

pub mod lexemize;
pub mod rs2018_ts4_gungho;
