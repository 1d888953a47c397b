//! Keys, as far as the interface tells them apart.

use vstd::prelude::*;

verus! {

/// The key that was pressed.
#[derive(Debug, Clone, Copy, PartialEq, Eq, Structural)]
pub enum KeyCode {
    Char(char),
    Enter,
    Esc,
    Backspace,
    Delete,
    Left,
    Right,
    Up,
    Down,
    Home,
    End,
    PageUp,
    PageDown,
    Tab,
    BackTab,
    Other,
}

/// A key together with the modifiers that were held.
#[derive(Debug, Clone, Copy, PartialEq, Eq, Structural)]
pub struct KeyEvent {
    pub code: KeyCode,
    pub shift: bool,
    pub control: bool,
    /// Any modifier other than Shift and Control.
    pub other: bool,
}

impl KeyEvent {
    /// Whether the key is Ctrl+C.
    pub open spec fn is_interrupt(self) -> bool {
        self.control && self.code == KeyCode::Char('c')
    }

    /// Whether no modifier but Shift was held.
    pub open spec fn is_plain(self) -> bool {
        !self.control && !self.other
    }

    /// A key without modifiers.
    pub fn plain(code: KeyCode) -> (r: KeyEvent)
        ensures
            r == (KeyEvent { code, shift: false, control: false, other: false }),
    {
        KeyEvent { code, shift: false, control: false, other: false }
    }

    /// Whether the key is Ctrl+C.
    pub fn interrupts(self) -> (r: bool)
        ensures
            r == self.is_interrupt(),
    {
        self.control && self.code == KeyCode::Char('c')
    }
}

} // verus!
