pub mod config;
pub mod device;
pub mod constants;
pub mod errors;
pub mod helper;
pub mod script;

use vstd::prelude::*;

verus! {

/// A key designator understood by the key-injection sink.
#[derive(Debug, Clone, Copy, PartialEq, Eq)]
pub enum Key {
    Alt,
    Backspace,
    CapsLock,
    Control,
    Delete,
    DownArrow,
    End,
    Escape,
    F1,
    F2,
    F3,
    F4,
    F5,
    F6,
    F7,
    F8,
    F9,
    F10,
    F11,
    F12,
    F13,
    F14,
    F15,
    F16,
    F17,
    F18,
    F19,
    F20,
    Help,
    Home,
    LControl,
    LeftArrow,
    LShift,
    Meta,
    Option,
    PageDown,
    PageUp,
    RControl,
    Return,
    RightArrow,
    RShift,
    Shift,
    Space,
    Tab,
    UpArrow,
    /// The key that produces this character on the active layout.
    Layout(char),
    /// A platform key code.
    Raw(u16),
}

/// One automation command, applied in order by the single sink.
#[derive(Debug, Clone, Copy, PartialEq, Eq)]
pub enum EnigoCommand {
    KeyClick(Key),
    KeyDown(Key),
    KeyUp(Key),
}

} // verus!
