//! Named positions inside a buffer.

use vstd::prelude::*;

verus! {

/// A stable reference position within a buffer.
///
/// A mark names a position; it does not hold one. The buffer resolves the
/// name when a command is applied.
#[derive(Clone, Copy, Debug, PartialEq, Eq)]
pub enum Mark {
    /// The cursor with the given index; `Cursor(0)` is the primary cursor.
    Cursor(usize),
    /// A position of the display, such as the top of the visible region.
    DisplayMark(usize),
}

} // verus!
