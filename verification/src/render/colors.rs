//! The palette of the terminal, as `0xAARRGGBB`.

use vstd::prelude::*;

verus! {

/// Background of the terminal.
pub const BACKGROUND: u32 = 0xFF0D1117;

/// Text.
pub const TEXT: u32 = 0xFFE6EDF3;

/// Dimmed text.
pub const TEXT_DIM: u32 = 0xFF7D8590;

/// The cursor block.
pub const CURSOR: u32 = 0xFF58A6FF;

/// Success and prompt.
pub const GREEN: u32 = 0xFF3FB950;

/// Warnings.
pub const YELLOW: u32 = 0xFFD29922;

/// Errors.
pub const RED: u32 = 0xFFF85149;

/// Links and highlights.
pub const BLUE: u32 = 0xFF58A6FF;

/// Title bar of an inactive window.
pub const TITLE_BAR_BG: u32 = 0xFF21262D;

/// Title bar of the active window.
pub const TITLE_BAR_BG_ACTIVE: u32 = 0xFF30363D;

/// Title text.
pub const TITLE_TEXT: u32 = 0xFFE6EDF3;

/// The close button.
pub const CLOSE_BUTTON_HOVER: u32 = 0xFFDA3633;

/// The minimize button.
pub const MINIMIZE_BUTTON_HOVER: u32 = 0xFF484F58;

/// Border of the window.
pub const WINDOW_BORDER: u32 = 0xFF30363D;

} // verus!
