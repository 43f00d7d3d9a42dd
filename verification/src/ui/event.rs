//! Input events, decoded.

use vstd::prelude::*;

verus! {

/// A key of the keyboard, by what the terminal does with it.
#[derive(Clone, Copy, Debug, PartialEq, Eq, Structural)]
pub enum Key {
    /// The shift modifier.
    Shift,
    /// Deletes the character before the cursor.
    Backspace,
    /// Ends the line.
    Enter,
    /// A key that types a character: `plain` alone, `shifted` with
    /// shift held.
    Text { plain: char, shifted: char },
    /// Any other key.
    Other,
}

/// An input event.
#[derive(Clone, Copy, Debug, PartialEq, Eq, Structural)]
pub enum Event {
    /// A key went down.
    KeyDown(Key),
    /// A key went up.
    KeyUp(Key),
    /// A mouse button went down at the pixel `(x, y)` of the window.
    MouseDown { x: i32, y: i32 },
    /// Any other event.
    Other,
}

} // verus!
