use file_bridge::error::{FsError, FsStep};
use file_bridge::file_ops::{
    file_entry, io_failure, list_files, plan, DirItem, EntryKind, FsAction, Operation, Probe,
};
use file_bridge::path_guard::{GuardedPath, PathGuard};

fn found(name: &str, kind: EntryKind, len: u64, modified_secs: Option<u64>) -> DirItem {
    DirItem::Found { name: name.to_string(), kind, len, modified_secs }
}

fn target(user: &str) -> GuardedPath {
    PathGuard::new("/shared").unwrap().resolve(user).unwrap()
}

fn probe(what: Option<EntryKind>) -> Probe {
    match what {
        None => Probe::Missing,
        Some(kind) => Probe::Found(kind),
    }
}

fn action(op: Operation, what: Option<EntryKind>) -> Result<FsAction, FsError> {
    plan(op, target("x"), probe(what)).map(|task| task.action)
}

const OPERATIONS: [Operation; 5] =
    [Operation::List, Operation::Read, Operation::Write, Operation::Mkdir, Operation::Delete];

#[test]
fn listing_of_one_file_and_one_directory() {
    let items = vec![
        found("f.txt", EntryKind::File, 1, Some(1_700_000_000)),
        found("sub", EntryKind::Directory, 4096, Some(1_700_000_001)),
    ];
    let entries = list_files(&target("p"), &items).unwrap();
    assert_eq!(entries.len(), 2);
    let file = entries.iter().find(|e| e.name == "f.txt").unwrap();
    assert!(!file.is_directory);
    assert_eq!(file.size, Some(1));
    assert_eq!(file.path, "/shared/p/f.txt");
    assert_eq!(file.modified.as_deref(), Some("1700000000"));
    let dir = entries.iter().find(|e| e.name == "sub").unwrap();
    assert!(dir.is_directory);
    assert_eq!(dir.size, None);
    assert_eq!(dir.path, "/shared/p/sub");
    assert_eq!(dir.modified.as_deref(), Some("1700000001"));
}

#[test]
fn listing_of_an_empty_directory() {
    let entries = list_files(&target(""), &Vec::new()).unwrap();
    assert!(entries.is_empty());
}

#[test]
fn listing_keeps_the_order_of_the_items() {
    let items = vec![
        found("b", EntryKind::File, 2, None),
        found("a", EntryKind::Other, 0, Some(0)),
        found("c", EntryKind::Directory, 0, None),
    ];
    let entries = list_files(&target(""), &items).unwrap();
    let names: Vec<&str> = entries.iter().map(|e| e.name.as_str()).collect();
    assert_eq!(names, vec!["b", "a", "c"]);
    let paths: Vec<&str> = entries.iter().map(|e| e.path.as_str()).collect();
    assert_eq!(paths, vec!["/shared/b", "/shared/a", "/shared/c"]);
    assert_eq!(entries[0].size, Some(2));
    assert_eq!(entries[0].modified, None);
    assert!(!entries[1].is_directory);
    assert_eq!(entries[1].size, None);
    assert_eq!(entries[1].modified.as_deref(), Some("0"));
    assert!(entries[2].is_directory);
}

#[test]
fn listing_at_the_root_of_the_file_system() {
    let root = PathGuard::new("/").unwrap().resolve("").unwrap();
    let entries = list_files(&root, &vec![found("etc", EntryKind::Directory, 0, None)]).unwrap();
    assert_eq!(entries[0].path, "/etc");
}

#[test]
fn listing_fails_where_an_item_could_not_be_read() {
    let items = vec![
        found("a", EntryKind::File, 2, None),
        DirItem::Unreadable { reason: "input/output error".to_string() },
        found("c", EntryKind::Directory, 0, None),
    ];
    match list_files(&target(""), &items) {
        Err(FsError::IoError { step, reason }) => {
            assert_eq!(step, FsStep::ReadDirectory);
            assert_eq!(reason, "input/output error");
        }
        other => panic!("unexpected result: {:?}", other),
    }
    let only = vec![DirItem::Unreadable { reason: "gone".to_string() }];
    match list_files(&target(""), &only) {
        Err(e) => assert_eq!(e.message(), "Failed to read directory: gone"),
        Ok(entries) => panic!("unexpected listing: {:?}", entries),
    }
}

#[test]
fn listing_fails_with_the_first_failing_item() {
    let items = vec![
        found("a", EntryKind::File, 2, None),
        DirItem::MetadataUnknown { reason: "permission denied".to_string() },
        DirItem::Unreadable { reason: "input/output error".to_string() },
        DirItem::TypeUnknown { reason: "stale handle".to_string() },
    ];
    match list_files(&target(""), &items) {
        Err(FsError::IoError { step, reason }) => {
            assert_eq!(step, FsStep::Metadata);
            assert_eq!(reason, "permission denied");
        }
        other => panic!("unexpected result: {:?}", other),
    }
    let items = vec![
        DirItem::TypeUnknown { reason: "stale handle".to_string() },
        DirItem::MetadataUnknown { reason: "permission denied".to_string() },
    ];
    match list_files(&target(""), &items) {
        Err(e) => assert_eq!(e.message(), "Failed to get file type: stale handle"),
        Ok(entries) => panic!("unexpected listing: {:?}", entries),
    }
}

#[test]
fn file_entry_has_a_size_for_files_only() {
    let name = "n".to_string();
    let path = "/shared/n".to_string();
    let e = file_entry(&name, path.clone(), EntryKind::File, u64::MAX, Some(u64::MAX));
    assert_eq!(e.name, "n");
    assert_eq!(e.path, "/shared/n");
    assert!(!e.is_directory);
    assert_eq!(e.size, Some(u64::MAX));
    assert_eq!(e.modified.as_deref(), Some("18446744073709551615"));
    let e = file_entry(&name, path.clone(), EntryKind::Directory, 7, None);
    assert!(e.is_directory);
    assert_eq!(e.size, None);
    assert_eq!(e.modified, None);
    let e = file_entry(&name, path, EntryKind::Other, 7, Some(12));
    assert!(!e.is_directory);
    assert_eq!(e.size, None);
    assert_eq!(e.modified.as_deref(), Some("12"));
}

#[test]
fn list_needs_a_directory() {
    assert!(matches!(action(Operation::List, None), Err(FsError::NotFound)));
    assert!(matches!(action(Operation::List, Some(EntryKind::File)), Err(FsError::NotADirectory)));
    assert!(matches!(action(Operation::List, Some(EntryKind::Other)), Err(FsError::NotADirectory)));
    assert!(matches!(action(Operation::List, Some(EntryKind::Directory)), Ok(FsAction::ReadDirectory)));
}

#[test]
fn read_needs_something_that_is_no_directory() {
    assert!(matches!(action(Operation::Read, None), Err(FsError::NotFound)));
    assert!(matches!(action(Operation::Read, Some(EntryKind::Directory)), Err(FsError::IsADirectory)));
    assert!(matches!(action(Operation::Read, Some(EntryKind::File)), Ok(FsAction::ReadFile)));
    assert!(matches!(action(Operation::Read, Some(EntryKind::Other)), Ok(FsAction::ReadFile)));
}

#[test]
fn write_goes_ahead_whatever_is_there() {
    for what in [None, Some(EntryKind::File), Some(EntryKind::Directory), Some(EntryKind::Other)] {
        assert!(matches!(action(Operation::Write, what), Ok(FsAction::WriteFile)));
    }
}

#[test]
fn mkdir_twice_is_granted_both_times() {
    assert!(matches!(action(Operation::Mkdir, None), Ok(FsAction::CreateDirectories)));
    assert!(matches!(
        action(Operation::Mkdir, Some(EntryKind::Directory)),
        Ok(FsAction::CreateDirectories)
    ));
}

#[test]
fn delete_removes_a_directory_as_a_tree() {
    assert!(matches!(action(Operation::Delete, None), Err(FsError::NotFound)));
    assert!(matches!(action(Operation::Delete, Some(EntryKind::Directory)), Ok(FsAction::RemoveTree)));
    assert!(matches!(action(Operation::Delete, Some(EntryKind::File)), Ok(FsAction::RemoveFile)));
    assert!(matches!(action(Operation::Delete, Some(EntryKind::Other)), Ok(FsAction::RemoveFile)));
}

#[test]
fn list_after_delete_finds_nothing() {
    assert!(matches!(action(Operation::Delete, Some(EntryKind::Directory)), Ok(FsAction::RemoveTree)));
    assert!(matches!(action(Operation::List, None), Err(FsError::NotFound)));
}

#[test]
fn no_operation_goes_ahead_where_the_probe_failed() {
    for op in OPERATIONS {
        let failed = Probe::Failed { reason: "permission denied".to_string() };
        match plan(op, target("x"), failed) {
            Err(FsError::IoError { step, reason }) => {
                assert_eq!(step, FsStep::Metadata);
                assert_eq!(reason, "permission denied");
            }
            other => panic!("unexpected result: {:?}", other),
        }
    }
    let failed = Probe::Failed { reason: "permission denied".to_string() };
    let e = plan(Operation::Read, target("x"), failed).unwrap_err();
    assert_eq!(e.message(), "Failed to get metadata: permission denied");
}

#[test]
fn plan_hands_the_admitted_path_on() {
    let task = plan(Operation::Write, target("a/../b/c.txt"), Probe::Missing).unwrap();
    assert_eq!(task.target.to_text(), "/shared/b/c.txt");
    assert_eq!(task.action, FsAction::WriteFile);
}

#[test]
fn io_failure_names_the_step_and_keeps_the_reason() {
    let cases = [
        (FsAction::ReadDirectory, FsStep::ReadDirectory, "Failed to read directory: boom"),
        (FsAction::ReadFile, FsStep::ReadFile, "Failed to read file: boom"),
        (FsAction::WriteFile, FsStep::WriteFile, "Failed to write file: boom"),
        (FsAction::CreateDirectories, FsStep::CreateDirectory, "Failed to create directory: boom"),
        (FsAction::RemoveTree, FsStep::DeleteDirectory, "Failed to delete directory: boom"),
        (FsAction::RemoveFile, FsStep::DeleteFile, "Failed to delete file: boom"),
    ];
    for (action, expected_step, text) in cases {
        let e = io_failure(action, "boom".to_string());
        match &e {
            FsError::IoError { step, reason } => {
                assert_eq!(*step, expected_step);
                assert_eq!(reason, "boom");
            }
            other => panic!("unexpected error: {:?}", other),
        }
        assert_eq!(e.message(), text);
    }
}

#[test]
fn messages_of_the_other_errors() {
    assert_eq!(FsError::NotFound.message(), "Path does not exist");
    assert_eq!(FsError::PathEscape.message(), "Path is outside the shared folder");
    assert_eq!(FsError::NotADirectory.message(), "Path is not a directory");
    assert_eq!(FsError::IsADirectory.message(), "Path is a directory");
    let e = FsError::IoError { step: FsStep::Metadata, reason: String::new() };
    assert_eq!(e.message(), "Failed to get metadata: ");
    let e = FsError::IoError { step: FsStep::ResolvePath, reason: "loop".to_string() };
    assert_eq!(e.message(), "Failed to resolve path: loop");
}
