//! Terminal state: text buffer, cursor and scrollback.

pub mod laws;
pub mod terminal;
