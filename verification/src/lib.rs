//! Core of an interactive, line-oriented command shell.
//!
//! A raw input line is tokenized under shell-style quoting rules, the
//! tokens are resolved against a fixed command grammar (canonical names
//! plus aliases), and the matched command is dispatched to its handler,
//! which decides whether the shell keeps running. Everything here is
//! pure: reading lines and printing results belong to the host program.

pub mod dispatch;
pub mod errors;
pub mod grammar;
pub mod matcher;
pub mod shell;
pub mod tokenizer;
