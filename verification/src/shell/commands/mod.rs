//! Command dispatch and the commands themselves.
//!
//! A command that needs the operating system does not call it: it stops
//! with a [`Task`] whose [`SysRequest`] the caller performs, and goes on
//! in [`resume`] with the [`SysReply`].

pub mod builtin;
pub mod dispatch;
pub mod fs;
pub mod listing;
pub mod number;
pub mod system;
pub mod tree;
pub mod types;

pub use dispatch::{execute_command, resume};
pub use types::{CommandResult, DirEntry, FileStat, Step, SysError, SysReply, SysRequest, Task};
