//! The core of a minimal interactive shell: splitting a line into words,
//! classifying it as a command, resolving programs against a search path,
//! and deciding what each built-in does.
//!
//! Everything here computes on plain values. Reading the environment, probing
//! the file system, starting processes and printing are left to the caller,
//! which performs the effects this library describes.

pub mod text;
pub mod parser;
pub mod utils;
pub mod executor;
pub mod builtins;
