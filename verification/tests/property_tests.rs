use std::cell::RefCell;

use file_triage::filesystem::{FilesystemIO, StorageError};
use file_triage::{Backend, TriageError};

/// A storage port double that remembers every rename it was asked to
/// perform, so a test can check which relocations the engine requested.
struct RecordingPort {
    folders: Vec<String>,
    files: Vec<String>,
    renames: RefCell<Vec<(String, String)>>,
}

impl RecordingPort {
    fn new(folders: Vec<String>, files: Vec<String>) -> RecordingPort {
        RecordingPort {
            folders,
            files,
            renames: RefCell::new(Vec::new()),
        }
    }
}

impl FilesystemIO for RecordingPort {
    fn load_filesystem_elements(
        &self,
        _directory: &str,
    ) -> Result<(Vec<String>, Vec<String>), StorageError> {
        Ok((self.folders.clone(), self.files.clone()))
    }
    fn delete_file(&self, _file: &str) -> Result<(), StorageError> {
        Ok(())
    }
    fn move_file(&self, from_file: &str, to_file: &str) -> Result<(), StorageError> {
        self.renames
            .borrow_mut()
            .push((from_file.to_owned(), to_file.to_owned()));
        Ok(())
    }
    fn add_folder(&self, _folder: &str) -> Result<String, StorageError> {
        Err(StorageError::NotFound)
    }
}

/// A storage port double whose renames always collide with an existing
/// destination.
struct CollidingPort {}

impl FilesystemIO for CollidingPort {
    fn load_filesystem_elements(
        &self,
        _directory: &str,
    ) -> Result<(Vec<String>, Vec<String>), StorageError> {
        Ok((Vec::new(), Vec::new()))
    }
    fn delete_file(&self, _file: &str) -> Result<(), StorageError> {
        Ok(())
    }
    fn move_file(&self, _from_file: &str, _to_file: &str) -> Result<(), StorageError> {
        Err(StorageError::AlreadyExists)
    }
    fn add_folder(&self, _folder: &str) -> Result<String, StorageError> {
        Err(StorageError::NotFound)
    }
}

fn triage_files() -> Vec<String> {
    vec![
        String::from("./file1.png"),
        String::from("./file2.png"),
        String::from("./file3.png"),
    ]
}

#[test]
fn undoing_a_run_of_actions_restores_the_session() {
    let port = RecordingPort::new(vec![String::from("dest")], triage_files());
    let mut backend = Backend::new(port);
    backend.load_folders_and_files(String::from("./pics")).unwrap();

    backend.skip().unwrap();
    backend.move_file(String::from("dest")).unwrap();
    assert_eq!(backend.current_file_index, 2);
    assert_eq!(backend.undo_stack.len(), 2);

    backend.undo().unwrap();
    backend.undo().unwrap();

    assert_eq!(backend.current_file_index, 0);
    assert_eq!(backend.undo_stack.len(), 0);
    assert_eq!(backend.redo_stack.len(), 2);
    assert_eq!(backend.files, triage_files());
    assert_eq!(backend.pwd, String::from("./pics"));
    // The one rename of the run was played back in reverse: the moved file
    // is back at its original path.
    let renames = backend.filesystem_helper.renames.borrow();
    assert_eq!(renames.len(), 2);
    assert_eq!(
        renames[0],
        (String::from("./file2.png"), String::from("dest/file2.png"))
    );
    assert_eq!(
        renames[1],
        (String::from("dest/file2.png"), String::from("./file2.png"))
    );
}

#[test]
fn move_undo_redo_reproduces_the_same_destination() {
    let port = RecordingPort::new(vec![String::from("dest")], triage_files());
    let mut backend = Backend::new(port);
    backend.load_folders_and_files(String::from("./pics")).unwrap();

    backend.move_file(String::from("dest")).unwrap();
    backend.undo().unwrap();
    backend.redo().unwrap();

    assert_eq!(backend.current_file_index, 1);
    assert_eq!(backend.undo_stack.len(), 1);
    assert_eq!(backend.redo_stack.len(), 0);
    let renames = backend.filesystem_helper.renames.borrow();
    assert_eq!(renames.len(), 3);
    assert_eq!(
        renames[0],
        (String::from("./file1.png"), String::from("dest/file1.png"))
    );
    assert_eq!(
        renames[1],
        (String::from("dest/file1.png"), String::from("./file1.png"))
    );
    // The redo replays exactly the rename the move performed.
    assert_eq!(renames[2], renames[0]);
}

#[test]
fn a_fresh_skip_clears_the_redo_stack_so_redo_is_a_noop() {
    let port = RecordingPort::new(vec![String::from("dest")], triage_files());
    let mut backend = Backend::new(port);
    backend.load_folders_and_files(String::from("./pics")).unwrap();
    backend.move_file(String::from("dest")).unwrap();
    backend.undo().unwrap();
    assert_eq!(backend.redo_stack.len(), 1);

    backend.skip().unwrap();
    assert_eq!(backend.redo_stack.len(), 0);

    backend.redo().unwrap();

    assert_eq!(backend.current_file_index, 1);
    assert_eq!(backend.undo_stack.len(), 1);
    assert_eq!(backend.redo_stack.len(), 0);
}

#[test]
fn a_fresh_delete_clears_the_redo_stack() {
    let port = RecordingPort::new(vec![String::from("dest")], triage_files());
    let mut backend = Backend::new(port);
    backend.load_folders_and_files(String::from("./pics")).unwrap();
    backend.move_file(String::from("dest")).unwrap();
    backend.undo().unwrap();
    assert_eq!(backend.redo_stack.len(), 1);

    backend.delete_file().unwrap();

    assert_eq!(backend.redo_stack.len(), 0);
    assert_eq!(backend.undo_stack.len(), 1);
    assert_eq!(backend.current_file_index, 0);
}

#[test]
fn skipping_at_the_last_file_fails_and_undo_restores_the_last_file() {
    let port = RecordingPort::new(Vec::new(), triage_files());
    let mut backend = Backend::new(port);
    backend.load_folders_and_files(String::from("./pics")).unwrap();
    backend.skip().unwrap();
    backend.skip().unwrap();
    assert_eq!(backend.current_file_index, 2);

    let result = backend.skip();
    assert_eq!(result, Err(TriageError::EndOfFiles));
    assert_eq!(backend.current_file_index, 2);

    backend.undo().unwrap();
    assert_eq!(backend.current_file_index, 2);
    assert_eq!(
        backend.get_current_file().unwrap(),
        &String::from("./file3.png")
    );

    backend.undo().unwrap();
    assert_eq!(backend.current_file_index, 1);
}

#[test]
fn loading_then_moving_then_undoing_a_picture_directory() {
    let port = RecordingPort::new(
        vec![String::from("dest")],
        vec![String::from("a.jpg"), String::from("b.jpg")],
    );
    let mut backend = Backend::new(port);
    backend.load_folders_and_files(String::from("./pics")).unwrap();
    assert_eq!(backend.files.len(), 2);
    assert_eq!(backend.folders, vec![String::from("dest")]);

    let to_folder = backend.folders[0].clone();
    backend.move_file(to_folder).unwrap();
    assert_eq!(backend.current_file_index, 1);
    assert_eq!(backend.undo_stack.len(), 1);
    assert_eq!(
        backend.filesystem_helper.renames.borrow()[0],
        (String::from("a.jpg"), String::from("dest/a.jpg"))
    );

    backend.undo().unwrap();
    assert_eq!(backend.current_file_index, 0);
    assert_eq!(backend.undo_stack.len(), 0);
    assert_eq!(backend.redo_stack.len(), 1);
    assert_eq!(
        backend.filesystem_helper.renames.borrow()[1],
        (String::from("dest/a.jpg"), String::from("a.jpg"))
    );
}

#[test]
fn adding_a_missing_folder_fails_and_leaves_the_folder_list_alone() {
    let port = RecordingPort::new(Vec::new(), Vec::new());
    let mut backend = Backend::new(port);
    backend.folders = vec![String::from("kept")];

    let result = backend.add_folder(String::from("./missing"));

    assert_eq!(result, Err(TriageError::NotFound));
    assert_eq!(backend.folders, vec![String::from("kept")]);
}

#[test]
fn moving_onto_an_existing_file_fails_and_changes_nothing() {
    let mut backend = Backend::new(CollidingPort {});
    backend.files = triage_files();

    let result = backend.move_file(String::from("dest"));

    assert_eq!(result, Err(TriageError::AlreadyExists));
    assert_eq!(backend.current_file_index, 0);
    assert_eq!(backend.undo_stack.len(), 0);
    assert_eq!(backend.redo_stack.len(), 0);
    assert_eq!(backend.files, triage_files());
}

#[test]
fn moving_the_last_file_commits_the_rename_and_reports_end_of_files() {
    let port = RecordingPort::new(Vec::new(), vec![String::from("only.png")]);
    let mut backend = Backend::new(port);
    backend.load_folders_and_files(String::from("./pics")).unwrap();

    let result = backend.move_file(String::from("dest"));

    assert_eq!(result, Err(TriageError::EndOfFiles));
    assert_eq!(backend.current_file_index, 0);
    assert_eq!(backend.undo_stack.len(), 1);
    assert_eq!(backend.filesystem_helper.renames.borrow().len(), 1);
}

#[test]
fn moving_a_file_without_a_name_component_fails_with_invalid_data() {
    let port = RecordingPort::new(Vec::new(), vec![String::from("strange/..")]);
    let mut backend = Backend::new(port);
    backend.load_folders_and_files(String::from("./pics")).unwrap();

    let result = backend.move_file(String::from("dest"));

    assert_eq!(result, Err(TriageError::InvalidData));
    assert_eq!(backend.current_file_index, 0);
    assert_eq!(backend.undo_stack.len(), 0);
    assert_eq!(backend.filesystem_helper.renames.borrow().len(), 0);
}

#[test]
fn undoing_a_delete_at_the_first_file_keeps_the_cursor_at_zero() {
    let port = RecordingPort::new(Vec::new(), triage_files());
    let mut backend = Backend::new(port);
    backend.load_folders_and_files(String::from("./pics")).unwrap();

    backend.delete_file().unwrap();
    assert_eq!(backend.current_file_index, 0);
    assert_eq!(backend.undo_stack.len(), 1);

    backend.undo().unwrap();

    assert_eq!(backend.current_file_index, 0);
    assert_eq!(backend.undo_stack.len(), 0);
    assert_eq!(backend.redo_stack.len(), 1);
}

#[test]
fn loading_external_folders_keeps_files_cursor_and_history() {
    let port = RecordingPort::new(vec![String::from("elsewhere")], vec![String::from("x.png")]);
    let mut backend = Backend::new(port);
    backend.files = triage_files();
    backend.pwd = String::from("./old");
    backend.skip().unwrap();
    assert_eq!(backend.undo_stack.len(), 1);

    backend.load_external_folders(String::from("./other")).unwrap();

    assert_eq!(backend.folders, vec![String::from("elsewhere")]);
    assert_eq!(backend.files, triage_files());
    assert_eq!(backend.pwd, String::from("./old"));
    assert_eq!(backend.current_file_index, 1);
    assert_eq!(backend.undo_stack.len(), 1);
}

#[test]
fn loading_a_directory_resets_the_whole_session() {
    let port = RecordingPort::new(vec![String::from("dest")], triage_files());
    let mut backend = Backend::new(port);
    backend.load_folders_and_files(String::from("./pics")).unwrap();
    backend.skip().unwrap();
    backend.skip().unwrap();
    backend.undo().unwrap();
    assert_eq!(backend.redo_stack.len(), 1);

    backend.load_folders_and_files(String::from("./pics2")).unwrap();

    assert_eq!(backend.pwd, String::from("./pics2"));
    assert_eq!(backend.current_file_index, 0);
    assert_eq!(backend.undo_stack.len(), 0);
    assert_eq!(backend.redo_stack.len(), 0);
}

#[test]
fn file_count_reports_the_number_of_loaded_files() {
    let port = RecordingPort::new(Vec::new(), triage_files());
    let mut backend = Backend::new(port);
    assert_eq!(backend.file_count(), 0);
    backend.load_folders_and_files(String::from("./pics")).unwrap();
    assert_eq!(backend.file_count(), 3);
}
