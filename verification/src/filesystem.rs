//! The storage port: the capability set the engine needs from a filesystem.
//!
//! The engine never touches the filesystem itself; it goes through an
//! implementation of [`FilesystemIO`] chosen by the caller — a real
//! filesystem adapter, or an in-memory substitute for testing. The engine's
//! contracts therefore promise nothing about what a port call does, only how
//! the engine's own state changes for each possible outcome.

use vstd::prelude::*;

verus! {

/// The failures a storage port can signal: a path that does not exist, or a
/// rename destination that is already taken. The engine propagates these to
/// its caller unchanged (as the matching [`TriageError`](crate::TriageError)
/// kind) and never swallows one.
#[derive(Clone, Copy, Debug, PartialEq, Eq, Structural)]
pub enum StorageError {
    NotFound,
    AlreadyExists,
}

impl StorageError {
    /// The engine-level error kind carrying this port failure to the caller.
    pub fn to_triage(self) -> (r: crate::TriageError)
        ensures
            self is NotFound ==> r is NotFound,
            self is AlreadyExists ==> r is AlreadyExists,
    {
        match self {
            StorageError::NotFound => crate::TriageError::NotFound,
            StorageError::AlreadyExists => crate::TriageError::AlreadyExists,
        }
    }
}

/// The filesystem capability set: enumerate a directory into folders and
/// files, remove a file, rename a path, and validate an existing folder path.
///
/// Implementations live outside the verified engine (a real adapter performs
/// I/O; tests supply a double), so no method carries a contract: the engine
/// states what holds of its own state for every outcome of a port call.
pub trait FilesystemIO {
    /// Enumerates `directory`, partitioned into folders and files, each in a
    /// deterministic (sorted) order. Fails with `NotFound` if the directory
    /// does not exist or is unreadable.
    fn load_filesystem_elements(&self, directory: &str) -> Result<(Vec<String>, Vec<String>), StorageError>;

    /// Removes `file`. Fails with `NotFound` if it does not exist.
    fn delete_file(&self, file: &str) -> Result<(), StorageError>;

    /// Relocates `from_file` to `to_file`. Fails with `AlreadyExists` if the
    /// destination is taken (never silently overwrites), and with `NotFound`
    /// if the source does not exist.
    fn move_file(&self, from_file: &str, to_file: &str) -> Result<(), StorageError>;

    /// Resolves `folder` to a usable folder path. Fails with `NotFound` if it
    /// does not exist.
    fn add_folder(&self, folder: &str) -> Result<String, StorageError>;
}

} // verus!
