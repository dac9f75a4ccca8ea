//! Keys, as the terminal reports them.

use vstd::prelude::*;

verus! {

/// A key that was pressed.
#[derive(Debug, Clone, Copy, PartialEq, Eq, Structural)]
pub enum KeyCode {
    Char(char),
    Enter,
    Esc,
    Tab,
    Backspace,
    Delete,
    Left,
    Right,
    Up,
    Down,
    Home,
    End,
    PageUp,
    PageDown,
    /// Any other key.
    Other,
}

/// The keys that were held down with it.
#[derive(Debug, Clone, Copy, PartialEq, Eq, Structural)]
pub struct KeyModifiers {
    pub control: bool,
    pub alt: bool,
}

/// Whether the key is Ctrl+C.
pub open spec fn ctrl_c(code: KeyCode, mods: KeyModifiers) -> bool {
    code == KeyCode::Char('c') && mods.control
}

/// Whether the key is Ctrl+C.
pub fn is_ctrl_c(code: KeyCode, mods: KeyModifiers) -> (r: bool)
    ensures
        r == ctrl_c(code, mods),
{
    match code {
        KeyCode::Char(c) => c == 'c' && mods.control,
        _ => false,
    }
}

} // verus!
