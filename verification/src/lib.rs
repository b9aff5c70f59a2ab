//! Backend engine for a file-triage tool: walk an ordered list of files one at
//! a time and dispatch each to a destination folder, skip it, or delete it,
//! with full undo/redo over the sequence of decisions.
//!
//! The engine owns the file list, the folder list, a cursor into the file
//! list, and two command histories (an undo stack and a redo stack). All raw
//! filesystem work is delegated to a caller-supplied storage port (the
//! [`FilesystemIO`](crate::filesystem::FilesystemIO) trait), so the engine's
//! own behaviour — cursor movement, history bookkeeping, and the end-of-files
//! boundary — is verified here for every port implementation.

use vstd::prelude::*;

pub mod control_flow;
pub mod filesystem;
pub mod laws;
pub mod pathname;

use crate::control_flow::{Command, CommandModel, Controllable, Move, Skip};
use crate::filesystem::FilesystemIO;

verus! {

/// The error taxonomy of the engine.
///
/// Every fallible operation returns one of these kinds: `NotFound` for a
/// missing directory, file or folder; `AlreadyExists` for a destination
/// collision on a rename; `InvalidData` for a file path lacking a name
/// component; and `EndOfFiles` when the cursor would advance beyond the last
/// entry. `EndOfFiles` is an expected terminal condition, recoverable by
/// `undo`, not a corrupting one.
#[derive(Clone, Copy, Debug, PartialEq, Eq, Structural)]
pub enum TriageError {
    NotFound,
    AlreadyExists,
    InvalidData,
    EndOfFiles,
}

/// The mathematical value of an engine: every contract of [`Backend`] speaks
/// of this state, reached through the view operator `@`. The storage port is
/// a collaborator, not state, so it has no place here.
#[verifier::ext_equal]
pub struct EngineModel {
    /// The loaded file paths, in load order, each as a character sequence.
    pub files: Seq<Seq<char>>,
    /// The loaded folder paths, in load order.
    pub folders: Seq<Seq<char>>,
    /// The working directory handed to the last full load.
    pub pwd: Seq<char>,
    /// The index of the current file.
    pub cursor: int,
    /// The recorded commands awaiting undo, oldest first.
    pub undo_stack: Seq<CommandModel>,
    /// The undone commands awaiting redo, oldest first.
    pub redo_stack: Seq<CommandModel>,
    /// Whether the last attempted advance hit the end of the file list.
    pub end_of_files: bool,
}

/// The views of a sequence of paths.
pub open spec fn path_views(s: Seq<String>) -> Seq<Seq<char>> {
    s.map_values(|p: String| p@)
}

/// The views of a sequence of recorded commands.
pub open spec fn command_views(s: Seq<Command>) -> Seq<CommandModel> {
    s.map_values(|c: Command| c@)
}

/// Whether an advance from `m.cursor` would run past the last file.
pub open spec fn spec_at_end(m: EngineModel) -> bool {
    m.cursor + 1 >= m.files.len()
}

/// The state after an advance hit the end of the file list: only the
/// boundary flag changes.
pub open spec fn spec_hit_end(m: EngineModel) -> EngineModel {
    EngineModel { end_of_files: true, ..m }
}

/// The state after a successful cursor-advancing action recorded as `c`: the
/// cursor moves forward one, the command lands on the undo stack, and the
/// redo stack is cleared (a fresh action invalidates the previously-undone
/// future).
pub open spec fn spec_advanced(m: EngineModel, c: CommandModel) -> EngineModel {
    EngineModel {
        cursor: m.cursor + 1,
        undo_stack: m.undo_stack.push(c),
        redo_stack: Seq::empty(),
        ..m
    }
}

/// The state after a successful deletion: the cursor stays put — a deliberate
/// asymmetry versus move and skip — and a skip sentinel is recorded, since a
/// deletion cannot be materially undone.
pub open spec fn spec_deleted(m: EngineModel) -> EngineModel {
    EngineModel {
        undo_stack: m.undo_stack.push(CommandModel::Skip),
        redo_stack: Seq::empty(),
        ..m
    }
}

/// The state after the port committed a relocation of the current file to
/// `dest`: the move lands on the undo stack (the original location first,
/// the destination second), the redo stack is cleared, and the cursor
/// advances — or, from the last file, the boundary flag is raised with the
/// cursor left in place, the move staying committed.
pub open spec fn spec_move_committed(m: EngineModel, dest: Seq<char>) -> EngineModel {
    let pushed = EngineModel {
        undo_stack: m.undo_stack.push(
            CommandModel::Move { current: m.files[m.cursor], previous: dest },
        ),
        redo_stack: Seq::empty(),
        ..m
    };
    if spec_at_end(pushed) {
        spec_hit_end(pushed)
    } else {
        EngineModel { cursor: pushed.cursor + 1, ..pushed }
    }
}

/// The state change of one `undo`: with an empty undo stack, no change.
/// Otherwise the newest command moves from the undo stack to the redo stack
/// and the cursor retreats one — except when the last attempted advance hit
/// the end of the file list, in which case the boundary flag is cleared
/// instead, so that the current file becomes the last file rather than the
/// one before it. The cursor never retreats below zero.
pub open spec fn spec_undo(m: EngineModel) -> EngineModel {
    if m.undo_stack.len() == 0 {
        m
    } else {
        EngineModel {
            undo_stack: m.undo_stack.drop_last(),
            redo_stack: m.redo_stack.push(m.undo_stack.last()),
            end_of_files: false,
            cursor: if m.end_of_files {
                m.cursor
            } else if m.cursor > 0 {
                m.cursor - 1
            } else {
                0
            },
            ..m
        }
    }
}

/// The state change of one `redo`: with an empty redo stack, no change.
/// Otherwise the newest undone command moves back onto the undo stack and
/// the cursor advances one; an advance past the last file instead raises the
/// boundary flag, as any other advance would.
pub open spec fn spec_redo(m: EngineModel) -> EngineModel {
    if m.redo_stack.len() == 0 {
        m
    } else {
        let pushed = EngineModel {
            undo_stack: m.undo_stack.push(m.redo_stack.last()),
            redo_stack: m.redo_stack.drop_last(),
            ..m
        };
        if spec_at_end(pushed) {
            spec_hit_end(pushed)
        } else {
            EngineModel { cursor: pushed.cursor + 1, ..pushed }
        }
    }
}

proof fn lemma_path_views_push(s: Seq<String>, p: String)
    ensures
        path_views(s.push(p)) == path_views(s).push(p@),
{
    assert(path_views(s.push(p)) =~= path_views(s).push(p@));
}

proof fn lemma_command_views_push(s: Seq<Command>, c: Command)
    ensures
        command_views(s.push(c)) == command_views(s).push(c@),
{
    assert(command_views(s.push(c)) =~= command_views(s).push(c@));
}

proof fn lemma_command_views_drop_last(s: Seq<Command>)
    requires
        s.len() > 0,
    ensures
        command_views(s.subrange(0, s.len() - 1)) == command_views(s).drop_last(),
        command_views(s).last() == s.last()@,
        command_views(s).len() == s.len(),
{
    assert(command_views(s.subrange(0, s.len() - 1)) =~= command_views(s).drop_last());
}

proof fn lemma_command_views_empty()
    ensures
        command_views(Seq::<Command>::empty()) == Seq::<CommandModel>::empty(),
{
    assert(command_views(Seq::<Command>::empty()) =~= Seq::<CommandModel>::empty());
}

/// The triage engine. It records a reversible command for every
/// cursor-advancing or data-mutating action, delegating the raw filesystem
/// work to the storage port `F`.
///
/// The fields are public so that a caller (or a test) may inspect and stage
/// the session state directly; the contracts of the operations hold for
/// every state the fields can be put in.
pub struct Backend<F: FilesystemIO> {
    /// Collection of all files loaded to be sorted.
    pub files: Vec<String>,
    /// Collection of all folders loaded that files can be sorted into.
    pub folders: Vec<String>,
    /// The current working directory.
    pub pwd: String,
    /// The index of the current file in [`files`](Backend::files).
    pub current_file_index: usize,
    /// The recorded commands awaiting undo, oldest first.
    pub undo_stack: Vec<Command>,
    /// The undone commands awaiting redo, oldest first.
    pub redo_stack: Vec<Command>,
    /// The storage port all raw filesystem work is delegated to.
    pub filesystem_helper: F,
    /// Whether the last attempted advance hit the end of the file list.
    pub end_of_files: bool,
}

impl<F: FilesystemIO> View for Backend<F> {
    type V = EngineModel;

    open spec fn view(&self) -> EngineModel {
        EngineModel {
            files: path_views(self.files@),
            folders: path_views(self.folders@),
            pwd: self.pwd@,
            cursor: self.current_file_index as int,
            undo_stack: command_views(self.undo_stack@),
            redo_stack: command_views(self.redo_stack@),
            end_of_files: self.end_of_files,
        }
    }
}

impl<F: FilesystemIO> Backend<F> {
    /// A fresh engine around the given storage port: nothing loaded, the
    /// cursor at zero, both histories empty.
    pub fn new(filesystem_helper: F) -> (r: Backend<F>)
        ensures
            r@.files.len() == 0,
            r@.folders.len() == 0,
            r@.pwd.len() == 0,
            r@.cursor == 0,
            r@.undo_stack.len() == 0,
            r@.redo_stack.len() == 0,
            !r@.end_of_files,
    {
        let r = Backend {
            files: Vec::new(),
            folders: Vec::new(),
            pwd: String::new(),
            current_file_index: 0,
            undo_stack: Vec::new(),
            redo_stack: Vec::new(),
            filesystem_helper,
            end_of_files: false,
        };
        proof {
            assert(r@.files =~= Seq::<Seq<char>>::empty());
            assert(r@.folders =~= Seq::<Seq<char>>::empty());
            lemma_command_views_empty();
        }
        r
    }

    /// Returns the number of files to be sorted.
    pub fn file_count(&self) -> (r: usize)
        ensures
            r == self@.files.len(),
    {
        self.files.len()
    }

    /// Returns the current file, or `None` when the cursor is out of bounds —
    /// the defined way callers detect that no file awaits a decision.
    pub fn get_current_file(&self) -> (r: Option<&String>)
        ensures
            r is Some <==> self@.cursor < self@.files.len(),
            r matches Some(f) ==> f@ == self@.files[self@.cursor],
    {
        if self.current_file_index >= self.file_count() {
            return None;
        }

        Some(&self.files[self.current_file_index])
    }

    /// Clears the currently loaded folders; never fails.
    pub fn clear_folders(&mut self)
        ensures
            final(self)@ == (EngineModel { folders: Seq::empty(), ..old(self)@ }),
    {
        self.folders = Vec::new();
        proof {
            assert(final(self)@.folders =~= Seq::<Seq<char>>::empty());
            assert(final(self)@ =~= (EngineModel { folders: Seq::empty(), ..old(self)@ }));
        }
    }

    /// Loads all files and folders found in the specified path, replacing
    /// whatever was loaded before, and resets the rest of the session: the
    /// working directory becomes `directory`, the cursor returns to zero,
    /// and both histories and the end-of-files condition are cleared. On a
    /// port failure — a directory that does not exist or cannot be read —
    /// the failure is propagated unchanged and nothing changes.
    pub fn load_folders_and_files(&mut self, directory: String) -> (r: Result<(), TriageError>)
        ensures
            r is Ok ==> final(self)@.pwd == directory@
                && final(self)@.cursor == 0
                && final(self)@.undo_stack.len() == 0
                && final(self)@.redo_stack.len() == 0
                && !final(self)@.end_of_files,
            r is Err ==> final(self)@ == old(self)@
                && (r == Err::<(), TriageError>(TriageError::NotFound)
                    || r == Err::<(), TriageError>(TriageError::AlreadyExists)),
    {
        let clean_directory = pathname::trim(directory.as_str());

        match self.filesystem_helper.load_filesystem_elements(clean_directory.as_str()) {
            Ok((folders, files)) => {
                self.folders = folders;
                self.files = files;
                self.pwd = directory;
                self.current_file_index = 0;
                self.undo_stack = Vec::new();
                self.redo_stack = Vec::new();
                self.end_of_files = false;
                proof {
                    lemma_command_views_empty();
                }
                Ok(())
            }
            Err(e) => Err(e.to_triage()),
        }
    }

    /// Loads only the folder list from the specified path, leaving the file
    /// list, cursor and histories untouched — for sorting files somewhere
    /// other than into sibling folders. On a port failure the failure is
    /// propagated unchanged and nothing changes.
    pub fn load_external_folders(&mut self, directory: String) -> (r: Result<(), TriageError>)
        ensures
            r is Ok ==> final(self)@ == (EngineModel {
                folders: final(self)@.folders,
                ..old(self)@
            }),
            r is Err ==> final(self)@ == old(self)@
                && (r == Err::<(), TriageError>(TriageError::NotFound)
                    || r == Err::<(), TriageError>(TriageError::AlreadyExists)),
    {
        let clean_directory = pathname::trim(directory.as_str());

        match self.filesystem_helper.load_filesystem_elements(clean_directory.as_str()) {
            Ok((folders, _files)) => {
                self.folders = folders;
                Ok(())
            }
            Err(e) => Err(e.to_triage()),
        }
    }

    /// Resolves the specified folder path through the port and appends the
    /// resolved folder to the folder list; the folders already loaded keep
    /// their places. On a port failure — a path that does not exist — the
    /// failure is propagated unchanged and nothing changes.
    pub fn add_folder(&mut self, directory: String) -> (r: Result<(), TriageError>)
        ensures
            r is Ok ==> final(self)@ == (EngineModel {
                folders: final(self)@.folders,
                ..old(self)@
            })
                && final(self)@.folders.len() == old(self)@.folders.len() + 1
                && final(self)@.folders.take(old(self)@.folders.len() as int)
                    == old(self)@.folders,
            r is Err ==> final(self)@ == old(self)@
                && (r == Err::<(), TriageError>(TriageError::NotFound)
                    || r == Err::<(), TriageError>(TriageError::AlreadyExists)),
    {
        let clean_directory = pathname::trim(directory.as_str());
        let new_folder = match self.filesystem_helper.add_folder(clean_directory.as_str()) {
            Ok(f) => f,
            Err(e) => {
                return Err(e.to_triage());
            }
        };
        self.folders.push(new_folder);
        proof {
            lemma_path_views_push(old(self).folders@, final(self).folders@.last());
            let kept = final(self)@.folders.take(old(self)@.folders.len() as int);
            assert(kept =~= old(self)@.folders);
        }
        Ok(())
    }

    /// Deletes the current file through the port and records a skip sentinel
    /// — deletions are intentionally irreversible, and the sentinel only
    /// keeps the history bookkeeping symmetric — clearing the redo stack.
    /// The cursor does not advance. With no current file this is a no-op
    /// success; a port failure is propagated unchanged and nothing changes.
    pub fn delete_file(&mut self) -> (r: Result<(), TriageError>)
        ensures
            old(self)@.cursor >= old(self)@.files.len() ==> r is Ok && final(self)@ == old(self)@,
            old(self)@.cursor < old(self)@.files.len() ==> {
                &&& r is Ok ==> final(self)@ == spec_deleted(old(self)@)
                &&& r is Err ==> final(self)@ == old(self)@
                    && (r == Err::<(), TriageError>(TriageError::NotFound)
                        || r == Err::<(), TriageError>(TriageError::AlreadyExists))
            },
    {
        if self.current_file_index >= self.files.len() {
            return Ok(());
        }
        let file = &self.files[self.current_file_index];
        match self.filesystem_helper.delete_file(file.as_str()) {
            Ok(()) => {
                self.undo_stack.push(Command::Skip(Skip::new()));
                self.redo_stack = Vec::new();
                proof {
                    lemma_command_views_push(old(self).undo_stack@, final(self).undo_stack@.last());
                    lemma_command_views_empty();
                    assert(final(self)@ =~= spec_deleted(old(self)@));
                }
                Ok(())
            }
            Err(e) => Err(e.to_triage()),
        }
    }

    /// Moves the current file into `to_folder`: the destination is
    /// `to_folder` joined with the current file's name, the port performs
    /// the relocation, and on success the move is recorded and the cursor
    /// advances. Fails with `NotFound` when no files are loaded, and with
    /// `InvalidData` when the current path has no usable file name; with the
    /// cursor out of bounds it is a no-op success. Moving the last file
    /// commits the relocation and records it, then fails with `EndOfFiles`
    /// as the cursor cannot advance further. A port failure is propagated
    /// unchanged and nothing changes.
    pub fn move_file(&mut self, to_folder: String) -> (r: Result<(), TriageError>)
        ensures
            old(self)@.files.len() == 0 ==> r == Err::<(), TriageError>(TriageError::NotFound)
                && final(self)@ == old(self)@,
            old(self)@.files.len() > 0 && old(self)@.cursor >= old(self)@.files.len() ==> r is Ok
                && final(self)@ == old(self)@,
            ({
                let m = old(self)@;
                let name = pathname::file_name_of(m.files[m.cursor]);
                let dest = pathname::joined(to_folder@, name);
                m.cursor < m.files.len() ==> {
                    &&& !pathname::is_valid_file_name(name)
                        ==> r == Err::<(), TriageError>(TriageError::InvalidData)
                            && final(self)@ == m
                    &&& pathname::is_valid_file_name(name) ==> {
                        &&& r is Ok ==> final(self)@ == spec_move_committed(m, dest)
                            && !spec_at_end(m)
                        &&& r == Err::<(), TriageError>(TriageError::EndOfFiles)
                            ==> final(self)@ == spec_move_committed(m, dest) && spec_at_end(m)
                        &&& (r == Err::<(), TriageError>(TriageError::NotFound)
                            || r == Err::<(), TriageError>(TriageError::AlreadyExists))
                            ==> final(self)@ == m
                        &&& r != Err::<(), TriageError>(TriageError::InvalidData)
                    }
                }
            }),
    {
        if self.files.len() == 0 {
            return Err(TriageError::NotFound);
        }
        if self.current_file_index >= self.files.len() {
            return Ok(());
        }

        let from_file = self.files[self.current_file_index].clone();
        let destination = match Self::build_destination(to_folder, &from_file) {
            Ok(d) => d,
            Err(e) => {
                return Err(e);
            }
        };

        match self.filesystem_helper.move_file(from_file.as_str(), destination.as_str()) {
            Ok(()) => {}
            Err(e) => {
                return Err(e.to_triage());
            }
        }

        self.undo_stack.push(Command::Move(Move::new(from_file, destination)));
        self.redo_stack = Vec::new();
        proof {
            lemma_command_views_push(old(self).undo_stack@, final(self).undo_stack@.last());
            lemma_command_views_empty();
        }
        match self.increment() {
            Ok(()) => {}
            Err(e) => {
                proof {
                    assert(final(self)@ =~= spec_move_committed(
                        old(self)@,
                        pathname::joined(
                            to_folder@,
                            pathname::file_name_of(old(self)@.files[old(self)@.cursor]),
                        ),
                    ));
                }
                return Err(e);
            }
        }
        proof {
            assert(final(self)@ =~= spec_move_committed(
                old(self)@,
                pathname::joined(
                    to_folder@,
                    pathname::file_name_of(old(self)@.files[old(self)@.cursor]),
                ),
            ));
        }
        Ok(())
    }

    /// Builds the destination path for a move: `to_folder` joined with the
    /// file-name component of `from_file`. Fails with `InvalidData` when
    /// `from_file` has no usable file name (nothing is left once trailing
    /// separators and `.` segments are ignored, or the path ends in a `..`
    /// segment).
    pub fn build_destination(to_folder: String, from_file: &String) -> (r: Result<
        String,
        TriageError,
    >)
        ensures
            ({
                let name = pathname::file_name_of(from_file@);
                &&& pathname::is_valid_file_name(name) ==> (r matches Ok(d)
                    && d@ == pathname::joined(to_folder@, name))
                &&& !pathname::is_valid_file_name(name) ==> r == Err::<String, TriageError>(
                    TriageError::InvalidData,
                )
            }),
    {
        let file_name = match pathname::file_name(from_file.as_str()) {
            Some(name) => name,
            None => {
                return Err(TriageError::InvalidData);
            }
        };
        Ok(pathname::join(to_folder.as_str(), file_name.as_str()))
    }

    /// Decides whether advancing from `file_index` in a list of `file_count`
    /// files would run past its last entry; when it would, records the
    /// boundary condition and fails with `EndOfFiles`.
    pub fn is_end_of_files(&mut self, file_index: usize, file_count: usize) -> (r: Result<
        (),
        TriageError,
    >)
        ensures
            file_index + 1 >= file_count ==> r == Err::<(), TriageError>(TriageError::EndOfFiles)
                && final(self)@ == spec_hit_end(old(self)@),
            file_index + 1 < file_count ==> r is Ok && *final(self) == *old(self),
    {
        if file_count == 0 || file_index >= file_count - 1 {
            self.end_of_files = true;
            proof {
                assert(final(self)@ =~= spec_hit_end(old(self)@));
            }
            Err(TriageError::EndOfFiles)
        } else {
            Ok(())
        }
    }

    /// Advances the cursor by one; at the last entry it instead records the
    /// boundary condition and fails with `EndOfFiles`, leaving the cursor in
    /// place.
    pub fn increment(&mut self) -> (r: Result<(), TriageError>)
        ensures
            spec_at_end(old(self)@) ==> r == Err::<(), TriageError>(TriageError::EndOfFiles)
                && final(self)@ == spec_hit_end(old(self)@),
            !spec_at_end(old(self)@) ==> r is Ok && final(self)@ == (EngineModel {
                cursor: old(self)@.cursor + 1,
                ..old(self)@
            }),
    {
        let index = self.current_file_index;
        let count = self.file_count();
        match self.is_end_of_files(index, count) {
            Ok(()) => {}
            Err(e) => {
                return Err(e);
            }
        }
        self.current_file_index += 1;
        proof {
            assert(final(self)@ =~= (EngineModel { cursor: old(self)@.cursor + 1, ..old(self)@ }));
        }
        Ok(())
    }

    /// Skips the current file: advances the cursor and records a skip, which
    /// clears the redo stack. At the last entry it fails with `EndOfFiles`
    /// and records the boundary condition instead; nothing else changes.
    pub fn skip(&mut self) -> (r: Result<(), TriageError>)
        ensures
            spec_at_end(old(self)@) ==> r == Err::<(), TriageError>(TriageError::EndOfFiles)
                && final(self)@ == spec_hit_end(old(self)@),
            !spec_at_end(old(self)@) ==> r is Ok && final(self)@ == spec_advanced(
                old(self)@,
                CommandModel::Skip,
            ),
    {
        match self.increment() {
            Ok(()) => {}
            Err(e) => {
                return Err(e);
            }
        }
        self.undo_stack.push(Command::Skip(Skip::new()));
        self.redo_stack = Vec::new();
        proof {
            lemma_command_views_push(old(self).undo_stack@, final(self).undo_stack@.last());
            lemma_command_views_empty();
            assert(final(self)@ =~= spec_advanced(old(self)@, CommandModel::Skip));
        }
        Ok(())
    }

    /// Undoes the previous action: moves the newest command from the undo
    /// stack to the redo stack, plays its filesystem effect backward through
    /// the port, and retreats the cursor — or, when the last attempted
    /// advance hit the end of the file list, clears that boundary condition
    /// instead, restoring the last file as current. On an empty undo stack
    /// this is a no-op success. A port failure is propagated unchanged, after
    /// the bookkeeping above.
    pub fn undo(&mut self) -> (r: Result<(), TriageError>)
        ensures
            final(self)@ == spec_undo(old(self)@),
            old(self)@.undo_stack.len() == 0 ==> r is Ok,
            old(self)@.undo_stack.len() > 0 && old(self)@.undo_stack.last() is Skip ==> r is Ok,
            r is Err ==> old(self)@.undo_stack.len() > 0 && old(self)@.undo_stack.last() is Move
                && (r == Err::<(), TriageError>(TriageError::NotFound)
                    || r == Err::<(), TriageError>(TriageError::AlreadyExists)),
    {
        proof {
            if self.undo_stack@.len() > 0 {
                lemma_command_views_drop_last(self.undo_stack@);
            }
        }
        match self.undo_stack.pop() {
            Some(item) => {
                let result = item.undo(&self.filesystem_helper);
                self.redo_stack.push(item);
                if self.end_of_files {
                    self.end_of_files = false;
                } else if self.current_file_index > 0 {
                    self.current_file_index = self.current_file_index - 1;
                }
                proof {
                    lemma_command_views_push(
                        old(self).redo_stack@,
                        old(self).undo_stack@.last(),
                    );
                    assert(final(self)@ =~= spec_undo(old(self)@));
                }
                match result {
                    Ok(()) => Ok(()),
                    Err(e) => Err(e.to_triage()),
                }
            }
            None => Ok(()),
        }
    }

    /// Redoes the action most recently undone: moves the newest undone
    /// command back onto the undo stack, plays its filesystem effect forward
    /// through the port, and advances the cursor; an advance past the last
    /// file fails with `EndOfFiles` and records the boundary condition, the
    /// command staying redone. On an empty redo stack this is a no-op
    /// success. A port failure is propagated unchanged, after the
    /// bookkeeping above.
    pub fn redo(&mut self) -> (r: Result<(), TriageError>)
        ensures
            final(self)@ == spec_redo(old(self)@),
            old(self)@.redo_stack.len() == 0 ==> r is Ok,
            old(self)@.redo_stack.len() > 0 && spec_at_end(old(self)@)
                ==> r == Err::<(), TriageError>(TriageError::EndOfFiles),
            old(self)@.redo_stack.len() > 0 && !spec_at_end(old(self)@)
                && old(self)@.redo_stack.last() is Skip ==> r is Ok,
            r is Err ==> old(self)@.redo_stack.len() > 0,
            r is Err && !spec_at_end(old(self)@) ==> old(self)@.redo_stack.last() is Move
                && (r == Err::<(), TriageError>(TriageError::NotFound)
                    || r == Err::<(), TriageError>(TriageError::AlreadyExists)),
    {
        proof {
            if self.redo_stack@.len() > 0 {
                lemma_command_views_drop_last(self.redo_stack@);
            }
        }
        match self.redo_stack.pop() {
            Some(item) => {
                let result = item.redo(&self.filesystem_helper);
                self.undo_stack.push(item);
                proof {
                    lemma_command_views_push(
                        old(self).undo_stack@,
                        old(self).redo_stack@.last(),
                    );
                }
                match self.increment() {
                    Ok(()) => {}
                    Err(e) => {
                        proof {
                            assert(final(self)@ =~= spec_redo(old(self)@));
                        }
                        return Err(e);
                    }
                }
                proof {
                    assert(final(self)@ =~= spec_redo(old(self)@));
                }
                match result {
                    Ok(()) => Ok(()),
                    Err(e) => Err(e.to_triage()),
                }
            }
            None => Ok(()),
        }
    }
}

} // verus!
