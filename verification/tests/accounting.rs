use dircap::accounting::{over_goal, total_size};
use dircap::entry::{counted_file_type, Entry, FileKind};

fn entry(path: &[&str], kind: FileKind, size: u64, mtime: i64) -> Entry {
    let mut components: Vec<String> = Vec::new();
    for c in path {
        components.push(c.to_string());
    }
    Entry { path: components, kind, size, mtime }
}

#[test]
fn counted_file_type_kinds() {
    assert!(counted_file_type(FileKind::Regular));
    assert!(counted_file_type(FileKind::Symlink));
    assert!(!counted_file_type(FileKind::Directory));
    assert!(!counted_file_type(FileKind::Other));
}

#[test]
fn total_counts_files_and_symlinks_only() {
    let entries = vec![
        entry(&["a"], FileKind::Directory, 4096, 0),
        entry(&["a", "f.txt"], FileKind::Regular, 10, 1),
        entry(&["a", "link"], FileKind::Symlink, 3, 2),
        entry(&["a", "sock"], FileKind::Other, 5, 3),
    ];
    assert_eq!(total_size(&entries), Some(13));
}

#[test]
fn total_of_no_entries_is_zero() {
    let entries: Vec<Entry> = Vec::new();
    assert_eq!(total_size(&entries), Some(0));
}

#[test]
fn total_overflow_is_reported() {
    let entries = vec![
        entry(&["big1"], FileKind::Regular, u64::MAX, 0),
        entry(&["big2"], FileKind::Regular, 1, 1),
    ];
    assert_eq!(total_size(&entries), None);
}

#[test]
fn over_goal_compares_strictly() {
    assert!(!over_goal(100, 100));
    assert!(over_goal(101, 100));
    assert!(!over_goal(0, 0));
}
