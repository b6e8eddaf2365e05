//! Key presses, as the terminal front end reports them.

use vstd::prelude::*;

verus! {

/// Which key was pressed.
#[derive(Debug, Clone, Copy, PartialEq, Eq, Structural)]
pub enum KeyCode {
    Enter,
    Esc,
    Char(char),
    Backspace,
    Delete,
    Left,
    Right,
    Up,
    Down,
    Home,
    End,
    Tab,
    BackTab,
    /// Any other key.
    Other,
}

/// A key press: the key and whether Control was held.
#[derive(Debug, Clone, Copy, PartialEq, Eq, Structural)]
pub struct KeyEvent {
    pub code: KeyCode,
    pub ctrl: bool,
}

impl KeyEvent {
    /// A key pressed without Control.
    pub fn plain(code: KeyCode) -> (k: KeyEvent)
        ensures
            k == (KeyEvent { code, ctrl: false }),
    {
        KeyEvent { code, ctrl: false }
    }

    /// A character pressed with Control.
    pub fn ctrl(c: char) -> (k: KeyEvent)
        ensures
            k == (KeyEvent { code: KeyCode::Char(c), ctrl: true }),
    {
        KeyEvent { code: KeyCode::Char(c), ctrl: true }
    }
}

} // verus!
