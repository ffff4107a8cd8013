//! The intent a resolved key sequence stands for.

use vstd::prelude::*;
use crate::buffer::Mark;
use crate::overlay::OverlayType;
use crate::textobject::{Kind, Offset, TextObject};

verus! {

/// An effect on the editor that does not itself change buffer content.
#[derive(Clone, Copy, Debug, PartialEq, Eq)]
pub enum Instruction {
    SaveBuffer,
    ExitEditor,
    SetOverlay(OverlayType),
    SwitchToLastBuffer,
    Undo,
    Redo,
}

/// An operation applied to the buffer at a mark.
#[derive(Clone, Copy, Debug, PartialEq, Eq)]
pub enum Operation {
    /// Insert the character at the cursor.
    Insert(char),
    /// Delete from the mark to the far end of the command's text object.
    DeleteFromMark(Mark),
    /// Move the mark to the far end of the command's text object.
    MoveMark(Mark),
}

/// What a command does.
#[derive(Clone, Copy, Debug, PartialEq, Eq)]
pub enum Action {
    Operation(Operation),
    Instruction(Instruction),
}

/// A complete, self-contained intent: how often, what, and on which span.
#[derive(Clone, Copy, Debug, PartialEq, Eq)]
pub struct Command {
    /// Repeat count, at least 1.
    pub number: u32,
    pub action: Action,
    /// The span the action applies to, for the actions that have one.
    pub object: Option<TextObject>,
}

/// The outcome of feeding one key to a mode.
#[derive(Clone, Copy, Debug, PartialEq, Eq)]
pub enum BuilderEvent {
    /// A command is resolved and is to be dispatched now.
    Complete(Command),
    /// The key was consumed and nothing is to be dispatched yet.
    Incomplete,
}

impl Command {
    /// The validity of a command: it is repeated at least once, an instruction
    /// carries no text object, and a movement or a deletion carries one.
    pub open spec fn well_formed(self) -> bool {
        &&& self.number >= 1
        &&& match self.action {
            Action::Instruction(_) => self.object is None,
            Action::Operation(Operation::Insert(_)) => true,
            Action::Operation(Operation::DeleteFromMark(_)) => self.object is Some,
            Action::Operation(Operation::MoveMark(_)) => self.object is Some,
        }
    }

    /// A single execution of `instruction`, which has no text object.
    pub open spec fn once(instruction: Instruction) -> Command {
        Command { number: 1, action: Action::Instruction(instruction), object: None }
    }

    /// Leave the editor.
    pub open spec fn spec_exit_editor() -> Command {
        Command::once(Instruction::ExitEditor)
    }

    /// Write the current buffer out.
    pub open spec fn spec_save_buffer() -> Command {
        Command::once(Instruction::SaveBuffer)
    }

    /// Take back the latest change.
    pub open spec fn spec_undo() -> Command {
        Command::once(Instruction::Undo)
    }

    /// Apply again the change that was last taken back.
    pub open spec fn spec_redo() -> Command {
        Command::once(Instruction::Redo)
    }

    /// Insert `c` once at the cursor.
    pub open spec fn spec_insert_char(c: char) -> Command {
        Command { number: 1, action: Action::Operation(Operation::Insert(c)), object: None }
    }

    /// Insert one tab character at the cursor.
    pub open spec fn spec_insert_tab() -> Command {
        Command::spec_insert_char('\t')
    }

    /// Move the primary cursor once over the span given by `offset` and `kind`.
    pub open spec fn spec_movement(offset: Offset, kind: Kind) -> Command {
        Command {
            number: 1,
            action: Action::Operation(Operation::MoveMark(Mark::Cursor(0))),
            object: Some(TextObject { kind, offset }),
        }
    }

    /// Leave the editor.
    #[verifier::when_used_as_spec(spec_exit_editor)]
    pub fn exit_editor() -> (command: Command)
        ensures
            command == Command::spec_exit_editor(),
    {
        Command { number: 1, action: Action::Instruction(Instruction::ExitEditor), object: None }
    }

    /// Write the current buffer out.
    #[verifier::when_used_as_spec(spec_save_buffer)]
    pub fn save_buffer() -> (command: Command)
        ensures
            command == Command::spec_save_buffer(),
    {
        Command { number: 1, action: Action::Instruction(Instruction::SaveBuffer), object: None }
    }

    /// Take back the latest change.
    #[verifier::when_used_as_spec(spec_undo)]
    pub fn undo() -> (command: Command)
        ensures
            command == Command::spec_undo(),
    {
        Command { number: 1, action: Action::Instruction(Instruction::Undo), object: None }
    }

    /// Apply again the change that was last taken back.
    #[verifier::when_used_as_spec(spec_redo)]
    pub fn redo() -> (command: Command)
        ensures
            command == Command::spec_redo(),
    {
        Command { number: 1, action: Action::Instruction(Instruction::Redo), object: None }
    }

    /// Insert `c` once at the cursor.
    #[verifier::when_used_as_spec(spec_insert_char)]
    pub fn insert_char(c: char) -> (command: Command)
        ensures
            command == Command::spec_insert_char(c),
    {
        Command { number: 1, action: Action::Operation(Operation::Insert(c)), object: None }
    }

    /// Insert one tab character at the cursor.
    #[verifier::when_used_as_spec(spec_insert_tab)]
    pub fn insert_tab() -> (command: Command)
        ensures
            command == Command::spec_insert_tab(),
    {
        Command::insert_char('\t')
    }

    /// Move the primary cursor once over the span given by `offset` and `kind`.
    #[verifier::when_used_as_spec(spec_movement)]
    pub fn movement(offset: Offset, kind: Kind) -> (command: Command)
        ensures
            command == Command::spec_movement(offset, kind),
    {
        Command {
            number: 1,
            action: Action::Operation(Operation::MoveMark(Mark::Cursor(0))),
            object: Some(TextObject { kind, offset }),
        }
    }

}

} // verus!
