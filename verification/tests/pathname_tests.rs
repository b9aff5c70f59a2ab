use file_triage::filesystem::{FilesystemIO, StorageError};
use file_triage::pathname::{file_name, join, trim};
use file_triage::{Backend, TriageError};

/// A storage port double for exercising the path logic; nothing here ever
/// calls it.
struct NullPort {}

impl FilesystemIO for NullPort {
    fn load_filesystem_elements(
        &self,
        _directory: &str,
    ) -> Result<(Vec<String>, Vec<String>), StorageError> {
        Ok((Vec::new(), Vec::new()))
    }
    fn delete_file(&self, _file: &str) -> Result<(), StorageError> {
        Ok(())
    }
    fn move_file(&self, _from_file: &str, _to_file: &str) -> Result<(), StorageError> {
        Ok(())
    }
    fn add_folder(&self, _folder: &str) -> Result<String, StorageError> {
        Err(StorageError::NotFound)
    }
}

#[test]
fn trim_removes_whitespace_at_both_ends() {
    assert_eq!(trim(" \t./pics \n"), String::from("./pics"));
    assert_eq!(trim("./pics"), String::from("./pics"));
    assert_eq!(trim("  \r\n "), String::from(""));
    assert_eq!(trim(""), String::from(""));
    assert_eq!(trim("a b"), String::from("a b"));
}

#[test]
fn trim_removes_the_unicode_whitespace_characters_too() {
    assert_eq!(trim("\u{00A0}./pics\u{3000}"), String::from("./pics"));
    assert_eq!(trim("\u{2003}\u{2028}x"), String::from("x"));
    assert_eq!(trim("\u{000B}\u{000C}\u{0085}"), String::from(""));
    // Matches what the standard library trims.
    let typed = " \u{1680}./pics\u{205F}\u{202F}\t";
    assert_eq!(trim(typed), String::from(typed.trim()));
}

#[test]
fn file_name_is_the_final_segment() {
    assert_eq!(file_name("a/b/c.txt"), Some(String::from("c.txt")));
    assert_eq!(file_name("c.txt"), Some(String::from("c.txt")));
    assert_eq!(file_name("./images/file1.jpg"), Some(String::from("file1.jpg")));
}

#[test]
fn file_name_ignores_trailing_separators_and_dot_segments() {
    // The same results std::path::Path::file_name gives.
    assert_eq!(file_name("trailing/"), Some(String::from("trailing")));
    assert_eq!(file_name("a//"), Some(String::from("a")));
    assert_eq!(file_name("a/."), Some(String::from("a")));
    assert_eq!(file_name("a/./."), Some(String::from("a")));
    assert_eq!(file_name("./a"), Some(String::from("a")));
}

#[test]
fn file_name_rejects_paths_without_a_usable_name() {
    assert_eq!(file_name(""), None);
    assert_eq!(file_name("/"), None);
    assert_eq!(file_name("."), None);
    assert_eq!(file_name("./"), None);
    assert_eq!(file_name(".."), None);
    assert_eq!(file_name("a/.."), None);
    assert_eq!(file_name("a/../"), None);
    // A hidden file's name is a real name.
    assert_eq!(file_name("a/.config"), Some(String::from(".config")));
    assert_eq!(file_name("..."), Some(String::from("...")));
}

#[test]
fn join_inserts_a_separator_only_when_needed() {
    assert_eq!(join("dest", "a.jpg"), String::from("dest/a.jpg"));
    assert_eq!(join("dest/", "a.jpg"), String::from("dest/a.jpg"));
    assert_eq!(join("", "a.jpg"), String::from("a.jpg"));
}

#[test]
fn build_destination_joins_the_folder_with_the_file_name() {
    let built =
        Backend::<NullPort>::build_destination(String::from("dest"), &String::from("./a.jpg"));
    assert_eq!(built, Ok(String::from("dest/a.jpg")));

    let slashed =
        Backend::<NullPort>::build_destination(String::from("dest/"), &String::from("b.png"));
    assert_eq!(slashed, Ok(String::from("dest/b.png")));

    // A trailing separator on the source does not hide its file name.
    let source_slashed =
        Backend::<NullPort>::build_destination(String::from("dest"), &String::from("ends/"));
    assert_eq!(source_slashed, Ok(String::from("dest/ends")));
}

#[test]
fn build_destination_rejects_a_path_without_a_file_name() {
    let parent =
        Backend::<NullPort>::build_destination(String::from("dest"), &String::from(".."));
    assert_eq!(parent, Err(TriageError::InvalidData));

    let root =
        Backend::<NullPort>::build_destination(String::from("dest"), &String::from("/"));
    assert_eq!(root, Err(TriageError::InvalidData));
}
