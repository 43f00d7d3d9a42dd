//! The window: decorations, input events and the terminal inside.

pub mod decorations;
pub mod event;
pub mod window;
