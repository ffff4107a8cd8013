//! Auxiliary input surfaces shown on top of the buffer.

use vstd::prelude::*;

verus! {

/// The kinds of overlay an instruction can open.
#[derive(Clone, Copy, Debug, PartialEq, Eq)]
pub enum OverlayType {
    /// A one-line prompt.
    Prompt,
    /// The file picker.
    SelectFile,
}

} // verus!
