use gallery::files::{is_valid_name, remove_outcome, FileError, RemoveReport};

#[test]
fn traversal_names_are_invalid() {
    assert!(!is_valid_name("../settings.json"));
    assert!(!is_valid_name(".."));
    assert!(!is_valid_name("."));
    assert!(!is_valid_name(""));
    assert!(!is_valid_name("a/b.jpg"));
    assert!(!is_valid_name("/etc/passwd"));
    assert!(!is_valid_name("a\\b.jpg"));
    assert!(!is_valid_name("photos/../../secret"));
}

#[test]
fn plain_names_are_valid() {
    assert!(is_valid_name("photo.jpg"));
    assert!(is_valid_name("2024-01-01_12-00-00.png"));
    assert!(is_valid_name("..hidden"));
    assert!(is_valid_name("..."));
    assert!(is_valid_name("no extension"));
}

#[test]
fn missing_file_is_benign_not_found() {
    assert_eq!(remove_outcome(RemoveReport::Missing), Err(FileError::NotFound));
}

#[test]
fn denied_removal_is_permission_denied() {
    assert_eq!(remove_outcome(RemoveReport::Denied), Err(FileError::PermissionDenied));
}

#[test]
fn successful_removal_is_ok() {
    assert_eq!(remove_outcome(RemoveReport::Removed), Ok(()));
}
