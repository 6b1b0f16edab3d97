//! The input events that an application hands to the view.
use vstd::prelude::*;

verus! {

/// Mouse buttons.
#[derive(Debug, Clone, Copy, PartialEq, Eq)]
pub enum MouseButtons {
    Left,
    Right,
}

/// It is hard to match scan codes or key codes of every platform or windowing framework,
/// so only the "control" keys that drive application logic or text editing are encoded
/// here. Any other "printable" key is passed as the Unicode character that the current
/// keyboard layout gives it.
#[derive(Clone, Copy, PartialEq, Eq, Hash, Debug)]
pub enum Keys {
    Unknown,
    // UI keys
    Escape,
    // Editing keys
    Backspace,
    Delete,
    Insert,
    // Whitespace keys
    Enter,
    Tab,
    // Navigation keys
    ArrowUp,
    ArrowDown,
    ArrowLeft,
    ArrowRight,
    End,
    Home,
    PageDown,
    PageUp,
    // Modifier keys
    Alt,
    CapsLock,
    Ctrl,
    Shift,
}

} // verus!
