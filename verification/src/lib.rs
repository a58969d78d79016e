//! A standalone Luau runtime: the verified parts of its command line and
//! built-in libraries.

pub mod standalone;
pub mod build_target;
pub mod builtins;
pub mod cli;
pub mod compress;
pub mod crypto;
pub mod datetime;
pub mod definitions;
pub mod files;
pub mod formatting;
pub mod github;
pub mod luau;
pub mod metachunk;
pub mod net;
pub mod paths;
pub mod process;
pub mod regex;
pub mod prompt;
pub mod repl;
pub mod runtime;
pub mod text;
