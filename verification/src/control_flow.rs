//! Reversible commands: the closed set of undoable decisions the engine
//! records on its history stacks.
//!
//! A `Move` owns the two path endpoints of a single relocation and performs
//! the inverse rename on undo; a `Skip` owns nothing — all cursor movement
//! for a skip is the engine's responsibility, not the command's. A deletion
//! is recorded as a `Skip` sentinel: deletions are intentionally
//! irreversible, and the sentinel only keeps the cursor bookkeeping
//! symmetric with move and skip.

use vstd::prelude::*;

use crate::filesystem::{FilesystemIO, StorageError};

verus! {

/// The mathematical value of one recorded command: a relocation with its two
/// endpoints (as character sequences), or a skip.
pub enum CommandModel {
    Move { current: Seq<char>, previous: Seq<char> },
    Skip,
}

/// A recorded relocation. `undo` renames `previous_file_location` back to
/// `current_file_location`; `redo` applies the relocation again, the other
/// way round.
pub struct Move {
    pub current_file_location: String,
    pub previous_file_location: String,
}

impl Move {
    pub fn new(current_location: String, previous_location: String) -> (r: Move)
        ensures
            r.current_file_location@ == current_location@,
            r.previous_file_location@ == previous_location@,
    {
        Move { current_file_location: current_location, previous_file_location: previous_location }
    }
}

impl View for Move {
    type V = CommandModel;

    open spec fn view(&self) -> CommandModel {
        CommandModel::Move {
            current: self.current_file_location@,
            previous: self.previous_file_location@,
        }
    }
}

/// A recorded skip. It owns no data and its `undo`/`redo` are no-ops: the
/// engine alone moves the cursor.
pub struct Skip {
}

impl Skip {
    pub fn new() -> (r: Skip)
        ensures
            r@ is Skip,
    {
        Skip { }
    }
}

impl View for Skip {
    type V = CommandModel;

    open spec fn view(&self) -> CommandModel {
        CommandModel::Skip
    }
}

/// A command that can play its filesystem effect backward or forward through
/// a storage port. Skips promise success; what a relocation returns is the
/// port's decision, propagated unchanged.
pub trait Controllable {
    fn undo<F: FilesystemIO>(&self, filesystem: &F) -> Result<(), StorageError>;

    fn redo<F: FilesystemIO>(&self, filesystem: &F) -> Result<(), StorageError>;
}

impl Controllable for Move {
    /// Applies the inverse rename, from `previous_file_location` back to
    /// `current_file_location`.
    fn undo<F: FilesystemIO>(&self, filesystem: &F) -> Result<(), StorageError> {
        filesystem.move_file(&self.previous_file_location, &self.current_file_location)
    }

    /// Re-applies the relocation, from `current_file_location` to
    /// `previous_file_location`.
    fn redo<F: FilesystemIO>(&self, filesystem: &F) -> Result<(), StorageError> {
        filesystem.move_file(&self.current_file_location, &self.previous_file_location)
    }
}

impl Controllable for Skip {
    fn undo<F: FilesystemIO>(&self, _filesystem: &F) -> (r: Result<(), StorageError>)
        ensures
            r is Ok,
    {
        Ok(())
    }

    fn redo<F: FilesystemIO>(&self, _filesystem: &F) -> (r: Result<(), StorageError>)
        ensures
            r is Ok,
    {
        Ok(())
    }
}

/// One entry of an undo or redo stack: the tagged union of the two command
/// variants, dispatched by a match.
pub enum Command {
    Move(Move),
    Skip(Skip),
}

impl View for Command {
    type V = CommandModel;

    open spec fn view(&self) -> CommandModel {
        match self {
            Command::Move(m) => m@,
            Command::Skip(s) => s@,
        }
    }
}

impl Controllable for Command {
    fn undo<F: FilesystemIO>(&self, filesystem: &F) -> (r: Result<(), StorageError>)
        ensures
            self@ is Skip ==> r is Ok,
    {
        match self {
            Command::Move(m) => m.undo(filesystem),
            Command::Skip(s) => s.undo(filesystem),
        }
    }

    fn redo<F: FilesystemIO>(&self, filesystem: &F) -> (r: Result<(), StorageError>)
        ensures
            self@ is Skip ==> r is Ok,
    {
        match self {
            Command::Move(m) => m.redo(filesystem),
            Command::Skip(s) => s.redo(filesystem),
        }
    }
}

} // verus!
