//! Editing modes: the consumers of key events.

use vstd::prelude::*;
use crate::command::BuilderEvent;
use crate::keyboard::Key;

pub mod standard;

verus! {

/// The capability every editing mode offers to the editor's event loop.
///
/// A mode is fed one key at a time, in the order of input, and answers each
/// key with an event. The editor decides which mode receives the next key.
pub trait Mode {
    /// The invariant of the mode's state.
    spec fn well_formed(&self) -> bool;

    /// Consumes `key` and says whether a command is now to be dispatched.
    ///
    /// Every command a mode hands out is a valid one.
    fn handle_key_event(&mut self, key: Key) -> (event: BuilderEvent)
        requires
            old(self).well_formed(),
        ensures
            final(self).well_formed(),
            event matches BuilderEvent::Complete(command) ==> command.well_formed(),
    ;
}

} // verus!
