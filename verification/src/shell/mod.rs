//! The interactive shell: context, parser, path resolution and commands.

pub mod commands;
pub mod context;
pub mod parser;
pub mod path;

pub use commands::{execute_command, resume};
pub use context::ShellContext;
