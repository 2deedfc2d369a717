use cargo_ws_manage::fs::{
    apply_actions, path_text, unpack_path, FileContent, FsAction, FsEntry, IOError, MemFs,
};
use std::path::PathBuf;

fn segs(path: &[&str]) -> Vec<String> {
    path.iter().map(|s| s.to_string()).collect()
}

#[test]
fn unpack_path_test() {
    let path = PathBuf::from("/abc/def/123/X_y_z.txt");
    let path2 = PathBuf::from("/elephant/🐘.txt");

    assert_eq!("/abc/def/123/X_y_z.txt", unpack_path(&path).unwrap());
    assert_eq!("/elephant/🐘.txt", unpack_path(&path2).unwrap());
}

#[test]
fn path_text_joins_segments() {
    assert_eq!(path_text(&segs(&["demo", "core", "src", "lib.rs"])), "demo/core/src/lib.rs");
    assert_eq!(path_text(&segs(&["demo"])), "demo");
    assert_eq!(path_text(&segs(&[])), "");
}

#[test]
fn create_dir_rejects_existing() {
    let mut fs = MemFs::new();
    assert_eq!(fs.create_dir(&segs(&["demo"])), Ok(()));
    assert_eq!(fs.create_dir(&segs(&["demo"])), Err(IOError::AlreadyExists));
    assert_eq!(fs.entries.len(), 1);
}

#[test]
fn create_dir_requires_parent() {
    let mut fs = MemFs::new();
    assert_eq!(fs.create_dir(&segs(&["demo", "core"])), Err(IOError::UnderlyingIOError));
    assert_eq!(fs.entries.len(), 0);
}

#[test]
fn create_dir_rejects_empty_path() {
    let mut fs = MemFs::new();
    assert_eq!(fs.create_dir(&segs(&[])), Err(IOError::InvalidPath));
}

#[test]
fn write_file_rejects_existing_file() {
    let mut fs = MemFs::new();
    assert_eq!(fs.create_dir(&segs(&["demo"])), Ok(()));
    let content = FileContent::Text("hello".to_string());
    assert_eq!(fs.write_file(&segs(&["demo", "a.txt"]), &content), Ok(()));
    assert_eq!(
        fs.write_file(&segs(&["demo", "a.txt"]), &content),
        Err(IOError::AlreadyExists)
    );
    assert_eq!(fs.entries.len(), 2);
}

#[test]
fn write_file_rejects_directory_target() {
    let mut fs = MemFs::new();
    assert_eq!(fs.create_dir(&segs(&["demo"])), Ok(()));
    let content = FileContent::Text("hello".to_string());
    assert_eq!(fs.write_file(&segs(&["demo"]), &content), Err(IOError::UnderlyingIOError));
}

#[test]
fn write_file_requires_parent_directory() {
    let mut fs = MemFs::new();
    let content = FileContent::Text("hello".to_string());
    assert_eq!(
        fs.write_file(&segs(&["missing", "a.txt"]), &content),
        Err(IOError::UnderlyingIOError)
    );
}

#[test]
fn apply_actions_stops_at_first_failure() {
    let mut fs = MemFs::new();
    let actions = vec![
        FsAction::CreateDir(segs(&["demo"])),
        FsAction::CreateDir(segs(&["demo"])),
        FsAction::CreateDir(segs(&["untouched"])),
    ];
    assert_eq!(apply_actions(&mut fs, &actions), Err(IOError::AlreadyExists));
    assert_eq!(fs.entries.len(), 1);
    assert!(matches!(fs.entries[0].entry, FsEntry::Directory));
    assert_eq!(fs.entries[0].path, segs(&["demo"]));
}

#[test]
fn apply_actions_runs_whole_plan() {
    let mut fs = MemFs::new();
    let actions = vec![
        FsAction::CreateDir(segs(&["demo"])),
        FsAction::CreateDir(segs(&["demo", "src"])),
        FsAction::WriteFile(segs(&["demo", "src", "main.rs"]), FileContent::Text("x".to_string())),
    ];
    assert_eq!(apply_actions(&mut fs, &actions), Ok(()));
    assert_eq!(fs.entries.len(), 3);
    match &fs.entries[2].entry {
        FsEntry::File(FileContent::Text(t)) => assert_eq!(t, "x"),
        _ => panic!("expected a file with text"),
    }
}
