use vstd::prelude::*;
use vstd::string::*;
use vstd::utf8::*;

use crate::Key;

verus! {

/// Whether two strings hold the same characters.
pub fn same_text(a: &str, b: &str) -> (r: bool)
    ensures
        r == (a@ == b@),
{
    let x = String::from_str(a);
    let y = String::from_str(b);
    x == y
}

/// The key that a script names: one of the symbolic names below, or else the
/// layout key of the character whose code is the name's first UTF-8 byte.
pub open spec fn key_named(s: Seq<char>) -> Key {
    if s == "Alt"@ {
        Key::Alt
    } else if s == "Backspace"@ {
        Key::Backspace
    } else if s == "CapsLock"@ {
        Key::CapsLock
    } else if s == "Control"@ {
        Key::Control
    } else if s == "Delete"@ {
        Key::Delete
    } else if s == "DownArrow"@ {
        Key::DownArrow
    } else if s == "End"@ {
        Key::End
    } else if s == "Escape"@ {
        Key::Escape
    } else if s == "F1"@ {
        Key::F1
    } else if s == "F2"@ {
        Key::F2
    } else if s == "F3"@ {
        Key::F3
    } else if s == "F4"@ {
        Key::F4
    } else if s == "F5"@ {
        Key::F5
    } else if s == "F6"@ {
        Key::F6
    } else if s == "F7"@ {
        Key::F7
    } else if s == "F8"@ {
        Key::F8
    } else if s == "F9"@ {
        Key::F9
    } else if s == "F10"@ {
        Key::F10
    } else if s == "F11"@ {
        Key::F11
    } else if s == "F12"@ {
        Key::F12
    } else if s == "F13"@ {
        Key::F13
    } else if s == "F14"@ {
        Key::F14
    } else if s == "F15"@ {
        Key::F15
    } else if s == "F16"@ {
        Key::F16
    } else if s == "F17"@ {
        Key::F17
    } else if s == "F18"@ {
        Key::F18
    } else if s == "F19"@ {
        Key::F19
    } else if s == "F20"@ {
        Key::F20
    } else if s == "Help"@ {
        Key::Help
    } else if s == "Home"@ {
        Key::Home
    } else if s == "LControl"@ {
        Key::LControl
    } else if s == "LeftArrow"@ {
        Key::LeftArrow
    } else if s == "LShift"@ {
        Key::LShift
    } else if s == "Meta"@ {
        Key::Meta
    } else if s == "Option"@ {
        Key::Option
    } else if s == "PageDown"@ {
        Key::PageDown
    } else if s == "PageUp"@ {
        Key::PageUp
    } else if s == "RControl"@ {
        Key::RControl
    } else if s == "Return"@ {
        Key::Return
    } else if s == "RightArrow"@ {
        Key::RightArrow
    } else if s == "RShift"@ {
        Key::RShift
    } else if s == "Shift"@ {
        Key::Shift
    } else if s == "Space"@ {
        Key::Space
    } else if s == "Tab"@ {
        Key::Tab
    } else if s == "UpArrow"@ {
        Key::UpArrow
    } else {
        Key::Layout(encode_utf8(s)[0] as char)
    }
}

/// Translates a key name used by scripts into a key designator.
pub fn map_str_to_key(s: &str) -> (r: Key)
    requires
        s@.len() > 0,
    ensures
        r == key_named(s@),
{
    if same_text(s, "Alt") {
        Key::Alt
    } else if same_text(s, "Backspace") {
        Key::Backspace
    } else if same_text(s, "CapsLock") {
        Key::CapsLock
    } else if same_text(s, "Control") {
        Key::Control
    } else if same_text(s, "Delete") {
        Key::Delete
    } else if same_text(s, "DownArrow") {
        Key::DownArrow
    } else if same_text(s, "End") {
        Key::End
    } else if same_text(s, "Escape") {
        Key::Escape
    } else if same_text(s, "F1") {
        Key::F1
    } else if same_text(s, "F2") {
        Key::F2
    } else if same_text(s, "F3") {
        Key::F3
    } else if same_text(s, "F4") {
        Key::F4
    } else if same_text(s, "F5") {
        Key::F5
    } else if same_text(s, "F6") {
        Key::F6
    } else if same_text(s, "F7") {
        Key::F7
    } else if same_text(s, "F8") {
        Key::F8
    } else if same_text(s, "F9") {
        Key::F9
    } else if same_text(s, "F10") {
        Key::F10
    } else if same_text(s, "F11") {
        Key::F11
    } else if same_text(s, "F12") {
        Key::F12
    } else if same_text(s, "F13") {
        Key::F13
    } else if same_text(s, "F14") {
        Key::F14
    } else if same_text(s, "F15") {
        Key::F15
    } else if same_text(s, "F16") {
        Key::F16
    } else if same_text(s, "F17") {
        Key::F17
    } else if same_text(s, "F18") {
        Key::F18
    } else if same_text(s, "F19") {
        Key::F19
    } else if same_text(s, "F20") {
        Key::F20
    } else if same_text(s, "Help") {
        Key::Help
    } else if same_text(s, "Home") {
        Key::Home
    } else if same_text(s, "LControl") {
        Key::LControl
    } else if same_text(s, "LeftArrow") {
        Key::LeftArrow
    } else if same_text(s, "LShift") {
        Key::LShift
    } else if same_text(s, "Meta") {
        Key::Meta
    } else if same_text(s, "Option") {
        Key::Option
    } else if same_text(s, "PageDown") {
        Key::PageDown
    } else if same_text(s, "PageUp") {
        Key::PageUp
    } else if same_text(s, "RControl") {
        Key::RControl
    } else if same_text(s, "Return") {
        Key::Return
    } else if same_text(s, "RightArrow") {
        Key::RightArrow
    } else if same_text(s, "RShift") {
        Key::RShift
    } else if same_text(s, "Shift") {
        Key::Shift
    } else if same_text(s, "Space") {
        Key::Space
    } else if same_text(s, "Tab") {
        Key::Tab
    } else if same_text(s, "UpArrow") {
        Key::UpArrow
    } else {
        proof {
            encode_utf8_first_scalar(s@);
        }
        Key::Layout(s.as_bytes()[0] as char)
    }
}

} // verus!
