//! Terminal input as the screens see it.

use vstd::prelude::*;

verus! {

/// A key, as the terminal reports it.
#[derive(Clone, Copy, Debug, PartialEq, Eq, Structural)]
pub enum KeyCode {
    Char(char),
    Enter,
    Esc,
    Backspace,
    Tab,
    BackTab,
    Up,
    Down,
    Left,
    Right,
    F(u8),
    Other,
}

/// Whether a key went down, repeats or went up.
#[derive(Clone, Copy, Debug, PartialEq, Eq, Structural)]
pub enum KeyEventKind {
    Press,
    Repeat,
    Release,
}

/// A key event: the key, its kind, and whether Control or Shift was held.
#[derive(Clone, Copy, Debug, PartialEq, Eq, Structural)]
pub struct KeyEvent {
    pub code: KeyCode,
    pub kind: KeyEventKind,
    pub control: bool,
    pub shift: bool,
}

impl KeyEvent {
    /// A key press without modifiers.
    pub fn press(code: KeyCode) -> (k: KeyEvent)
        ensures
            k == (KeyEvent { code, kind: KeyEventKind::Press, control: false, shift: false }),
    {
        KeyEvent { code, kind: KeyEventKind::Press, control: false, shift: false }
    }
}

/// An input event: a clock tick, a key, a mouse event or a new terminal size.
#[derive(Clone, Copy, Debug, PartialEq, Eq, Structural)]
pub enum Event {
    Tick,
    Key(KeyEvent),
    Mouse,
    Resize(u16, u16),
}

} // verus!
