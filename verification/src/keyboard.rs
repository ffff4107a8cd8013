//! Input events as delivered by the terminal.

use vstd::prelude::*;

verus! {

/// One discrete input event.
///
/// Equality is structural: two keys are the same key exactly when they are
/// the same variant carrying the same character.
#[derive(Clone, Copy, Debug, PartialEq, Eq, Hash, Structural)]
pub enum Key {
    /// A plain printable character.
    Char(char),
    /// A character typed while the control modifier is held.
    Ctrl(char),
    Tab,
    Enter,
    Esc,
    Backspace,
    Delete,
    Up,
    Down,
    Left,
    Right,
    Home,
    End,
    PageUp,
    PageDown,
}

} // verus!
