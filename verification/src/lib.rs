//! Trace how environment variables and shell functions are assigned across
//! the startup files a shell or service manager reads for a given context.
//!
//! The crate is organised leaf-first: `text` holds verified character-level
//! utilities, the parser modules classify single lines and whole files, the
//! catalog modules list the startup files a platform consults, and `engine`
//! threads a running value through the files of one context.

pub mod cli;
pub mod common;
pub mod discovery;
pub mod engine;
pub mod environment;
pub mod files;
pub mod host;
pub mod laws;
pub mod linux;
pub mod macos;
pub mod function;
pub mod platform;
pub mod plist;
pub mod shell;
pub mod shell_function;
pub mod text;
pub mod variable;
