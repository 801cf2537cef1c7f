//! Parsing and planning of shell commands.

pub mod exec;
pub mod parse;
pub mod print;
pub mod resolve;
pub mod transfer;
pub mod types;
