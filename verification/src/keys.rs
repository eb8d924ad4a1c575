//! Keyboard input as the state machine reads it.

use vstd::prelude::*;

verus! {

/// The logical key of a keyboard event.
#[derive(Clone, Copy, Debug, PartialEq, Eq)]
pub enum KeyCode {
    /// A character key, with the character it produces.
    Char(char),
    Enter,
    Esc,
    Tab,
    Backspace,
    Up,
    Down,
    Left,
    Right,
    /// Any key that no screen reacts to.
    Other,
}

/// What happened to the key.
#[derive(Clone, Copy, Debug, PartialEq, Eq)]
pub enum KeyKind {
    Press,
    Repeat,
    Release,
}

/// One keyboard event: the key, the modifiers that matter, and its kind.
#[derive(Clone, Copy, Debug, PartialEq, Eq)]
pub struct KeyEvent {
    pub code: KeyCode,
    /// The control modifier is held.
    pub control: bool,
    /// The command (super) modifier is held.
    pub command: bool,
    pub kind: KeyKind,
}

impl KeyEvent {
    /// A press of `code` with no modifier held.
    pub fn press(code: KeyCode) -> (r: KeyEvent)
        ensures
            r == (KeyEvent { code, control: false, command: false, kind: KeyKind::Press }),
    {
        KeyEvent { code, control: false, command: false, kind: KeyKind::Press }
    }

    /// A press of `code` with the control modifier held.
    pub fn press_with_control(code: KeyCode) -> (r: KeyEvent)
        ensures
            r == (KeyEvent { code, control: true, command: false, kind: KeyKind::Press }),
    {
        KeyEvent { code, control: true, command: false, kind: KeyKind::Press }
    }

    /// Whether this is the save combination: `s` with control or command held.
    pub open spec fn is_save(self) -> bool {
        self.code == KeyCode::Char('s') && (self.control || self.command)
    }
}

} // verus!
