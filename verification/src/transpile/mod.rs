//! Tools for transpiling Rust code to TypeScript.

pub mod config;
pub mod error;
pub mod transpile;
pub mod transpile_result;
