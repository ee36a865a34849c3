//! Terminal events independent of the terminal library that reads them.

use vstd::prelude::*;

verus! {

/// A terminal event.
#[derive(Debug, Clone, Copy, PartialEq, Eq, Structural)]
pub enum BackendEvent {
    /// A key was pressed
    Key(BackendKey),
    /// A mouse event occurred
    Mouse(BackendMouse),
}

/// A key press. Enter is `Char('\n')` and Tab is `Char('\t')`.
#[derive(Debug, Clone, Copy, PartialEq, Eq, Structural)]
pub enum BackendKey {
    /// A character (including '\n' for Enter and '\t' for Tab)
    Char(char),
    /// Ctrl + character
    Ctrl(char),
    /// Escape
    Esc,
    /// Backspace
    Backspace,
    /// Left arrow
    Left,
    /// Right arrow
    Right,
    /// Up arrow
    Up,
    /// Down arrow
    Down,
    /// Home
    Home,
    /// End
    End,
    /// Page Up
    PageUp,
    /// Page Down
    PageDown,
    /// Function key (F1, F2, ...)
    F(u8),
}

/// A mouse event: only the wheel is used.
#[derive(Debug, Clone, Copy, PartialEq, Eq, Structural)]
pub enum BackendMouse {
    /// Wheel scrolled up
    WheelUp,
    /// Wheel scrolled down
    WheelDown,
}

} // verus!
