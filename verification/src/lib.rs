//! A character-cell terminal: a scrolling text buffer with a blinking
//! cursor, a bitmap glyph rasterizer, and an interactive shell with a
//! command-line parser and path resolution.

pub mod render;
pub mod shell;
pub mod state;
pub mod text;
pub mod ui;

pub use render::font::BitFont;
pub use shell::{execute_command, resume, ShellContext};
pub use state::terminal::TerminalState;
pub use ui::decorations::WindowDecorations;
pub use ui::window::TerminalWindow;
