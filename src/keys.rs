//! Key presses, as the modes read them.
use vstd::prelude::*;

verus! {

/// The key that was pressed.
#[derive(Debug, Clone, Copy, PartialEq, Eq, Structural)]
pub enum KeyCode {
    Char(char),
    Tab,
    Up,
    Down,
    Left,
    Right,
    Esc,
    Other,
}

/// A key press with the modifiers held down.
#[derive(Debug, Clone, Copy, PartialEq, Eq, Structural)]
pub struct Key {
    pub code: KeyCode,
    pub ctrl: bool,
    pub shift: bool,
    /// Alt, or any modifier other than Control and Shift.
    pub alt: bool,
}

impl Key {
    /// Control and no other modifier held.
    pub open spec fn control_only(self) -> bool {
        self.ctrl && !self.shift && !self.alt
    }

    /// Shift and no other modifier held.
    pub open spec fn shift_only(self) -> bool {
        self.shift && !self.ctrl && !self.alt
    }
}

} // verus!
