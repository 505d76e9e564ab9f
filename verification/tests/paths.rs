//! Paths, compared with `std::path` where it has an operation of the same meaning.

use std::path::{Path, PathBuf};

use rutty::path::{components, file_name, is_entry_name, join, sanitize_sftp_path};
use rutty::transfer::{place, transfer_name, FileStatus, TransferError};

const PATHS: [&str; 34] = [
    "", ".", "~", "/", "..", "a", "a/", "a//", "a/.", "a/..", "./a", "././a", "~/a", "~/", "~/.", "~//a//b//",
    "~/./a/./b/.", "~a", "~a/b", "/~", "./~", "a/~", "/a", "//a", "/a/b/c", "a/b", "a//b", "a/./b", "./", "//",
    "~/..", "...", "/.", "~/a/../b",
];

fn text(bytes: &[u8]) -> String {
    String::from_utf8(bytes.to_vec()).unwrap()
}

/// What sanitizing does, in terms of `std::path`.
fn sanitized_by_std(path: &str) -> PathBuf {
    let path = PathBuf::from(path);
    if path == Path::new("") || path == Path::new("~") || path == Path::new(".") {
        return PathBuf::from(".");
    }
    if path.starts_with("~") {
        return Path::new(".").join(path.strip_prefix("~").unwrap());
    }
    path
}

#[test]
fn components_are_those_of_std() {
    for path in PATHS {
        let expected: Vec<String> =
            Path::new(path).components().map(|c| c.as_os_str().to_str().unwrap().to_string()).collect();
        let actual: Vec<String> = components(path.as_bytes()).iter().map(|c| text(c)).collect();
        assert_eq!(actual, expected, "components of {:?}", path);
    }
}

#[test]
fn file_names_are_those_of_std() {
    for path in PATHS {
        let expected = Path::new(path).file_name().map(|n| n.to_str().unwrap().to_string());
        let actual = file_name(path.as_bytes()).map(|n| text(&n));
        assert_eq!(actual, expected, "file name of {:?}", path);
    }
}

#[test]
fn joining_is_that_of_std() {
    for base in PATHS {
        for name in PATHS {
            let expected = Path::new(base).join(name);
            let actual = join(base.as_bytes(), name.as_bytes());
            assert_eq!(text(&actual), expected.to_str().unwrap(), "{:?} joined with {:?}", base, name);
        }
    }
}

#[test]
fn sanitizing_is_byte_for_byte_that_of_std() {
    for path in PATHS {
        let actual = sanitize_sftp_path(path.as_bytes());
        assert_eq!(text(&actual), sanitized_by_std(path).to_str().unwrap(), "sanitized {:?}", path);
    }
}

#[test]
fn sanitizing_maps_the_home_directory_to_the_current_one() {
    assert_eq!(sanitize_sftp_path(b""), b".");
    assert_eq!(sanitize_sftp_path(b"~"), b".");
    assert_eq!(sanitize_sftp_path(b"~/"), b".");
    assert_eq!(sanitize_sftp_path(b"."), b".");
    assert_eq!(sanitize_sftp_path(b"~/notes.txt"), b"./notes.txt");
    assert_eq!(sanitize_sftp_path(b"~/a/b"), b"./a/b");
    assert_eq!(sanitize_sftp_path(b"~user/a"), b"~user/a");
    assert_eq!(sanitize_sftp_path(b"/etc/hosts"), b"/etc/hosts");
}

#[test]
fn sanitizing_twice_changes_nothing_more() {
    for path in PATHS {
        let once = sanitize_sftp_path(path.as_bytes());
        assert_eq!(sanitize_sftp_path(&once), once, "sanitized {:?}", path);
    }
}

#[test]
fn sanitized_paths_do_not_start_at_home() {
    for path in PATHS {
        let parts = components(&sanitize_sftp_path(path.as_bytes()));
        assert!(!parts.is_empty());
        assert_ne!(parts[0], b"~", "sanitized {:?}", path);
    }
}

#[test]
fn sanitizing_replaces_only_the_first_component() {
    let before = components(b"~//a/./b/");
    let after = components(&sanitize_sftp_path(b"~//a/./b/"));
    assert_eq!(before.len(), 3);
    assert_eq!(after[0], b".");
    assert_eq!(after[1..], before[1..]);
}

#[test]
fn entry_names() {
    assert!(is_entry_name(b"a"));
    assert!(is_entry_name(b".profile"));
    assert!(is_entry_name(b"..."));
    assert!(!is_entry_name(b""));
    assert!(!is_entry_name(b"."));
    assert!(!is_entry_name(b".."));
    assert!(!is_entry_name(b"/"));
    assert!(!is_entry_name(b"a/b"));
    assert!(!is_entry_name(b"../a"));
}

#[test]
fn joining_an_entry_name_adds_a_component() {
    for base in PATHS {
        let mut expected = components(base.as_bytes());
        expected.push(b"name".to_vec());
        let path = join(base.as_bytes(), b"name");
        assert_eq!(components(&path), expected, "name in {:?}", base);
        assert_eq!(file_name(&path), Some(b"name".to_vec()));
    }
}

#[test]
fn things_are_placed_into_directories() {
    assert_eq!(place(b"dir", FileStatus::Directory, b"f"), b"dir/f");
    assert_eq!(place(b"dir/", FileStatus::Directory, b"f"), b"dir/f");
    assert_eq!(place(b"path", FileStatus::File, b"f"), b"path");
    assert_eq!(place(b"path", FileStatus::Missing, b"f"), b"path");
}

#[test]
fn transfer_names() {
    assert_eq!(transfer_name(b"/tmp/a.txt"), Ok(b"a.txt".to_vec()));
    assert_eq!(transfer_name(b"/tmp/a/"), Ok(b"a".to_vec()));
    assert_eq!(transfer_name(b"/"), Err(TransferError::InvalidFileName));
    assert_eq!(transfer_name(b".."), Err(TransferError::InvalidFileName));
    assert_eq!(TransferError::InvalidFileName.message(), "invalid file name");
}
