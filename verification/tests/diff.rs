use reposync::diff::diff;
use reposync::model::blob::Blob;
use reposync::model::mode::FileMode;
use reposync::model::path::RepoPath;
use reposync::model::snapshot::{FileEntry, RepositorySnapshot};

fn file(path: &str, content: &[u8]) -> FileEntry {
    FileEntry::regular(RepoPath::new(path.to_string()).unwrap(), Blob::from_bytes(content))
}

fn snapshot(files: &[(&str, &[u8])]) -> RepositorySnapshot {
    let mut snapshot = RepositorySnapshot::new();
    for (path, content) in files {
        snapshot.insert(file(path, content));
    }
    snapshot
}

#[test]
fn identical_snapshots_diff_is_empty() {
    let snapshot = snapshot(&[("a.txt", b"a"), ("b/c.txt", b"c")]);
    let result = diff(&snapshot, &snapshot);
    assert!(result.is_empty());
    assert_eq!(result.changes(), 0);
}

#[test]
fn added_removed_and_modified() {
    let old = snapshot(&[("a.txt", b"a"), ("gone.txt", b"g")]);
    let new = snapshot(&[("a.txt", b"changed"), ("added.txt", b"n")]);
    let result = diff(&old, &new);

    assert_eq!(result.added.len(), 1);
    assert_eq!(result.added[0].path.as_str(), "added.txt");
    assert_eq!(result.added[0].old_hash, None);
    assert!(result.added[0].new_hash.is_some());

    assert_eq!(result.removed.len(), 1);
    assert_eq!(result.removed[0].path.as_str(), "gone.txt");
    assert_eq!(result.removed[0].new_hash, None);

    assert_eq!(result.modified.len(), 1);
    assert_eq!(result.modified[0].path.as_str(), "a.txt");
    assert_ne!(result.modified[0].old_hash, result.modified[0].new_hash);
    assert_eq!(result.modified[0].old_mode, result.modified[0].new_mode);

    assert!(result.renamed.is_empty());
}

#[test]
fn mode_only_change_is_modified_not_renamed() {
    let mut old = RepositorySnapshot::new();
    old.insert(FileEntry::new(
        RepoPath::new("run.sh".to_string()).unwrap(),
        Blob::from_bytes(b"#!/bin/sh"),
        FileMode::File,
    ));
    let mut new = RepositorySnapshot::new();
    new.insert(FileEntry::new(
        RepoPath::new("run.sh".to_string()).unwrap(),
        Blob::from_bytes(b"#!/bin/sh"),
        FileMode::Executable,
    ));

    let result = diff(&old, &new);
    assert_eq!(result.modified.len(), 1);
    assert_eq!(result.modified[0].old_mode, Some(FileMode::File));
    assert_eq!(result.modified[0].new_mode, Some(FileMode::Executable));
    assert!(result.renamed.is_empty());
}

#[test]
fn rename_detects_identical_content_and_mode() {
    let old = snapshot(&[("src/old.rs", b"code"), ("keep.txt", b"k")]);
    let new = snapshot(&[("src/new.rs", b"code"), ("keep.txt", b"k")]);
    let result = diff(&old, &new);

    assert_eq!(result.renamed.len(), 1);
    assert_eq!(result.renamed[0].from.as_str(), "src/old.rs");
    assert_eq!(result.renamed[0].to.as_str(), "src/new.rs");
    assert_eq!(result.added.len(), 0);
    assert_eq!(result.removed.len(), 0);
    assert_eq!(result.modified.len(), 0);
}

#[test]
fn changed_content_is_not_renamed() {
    let old = snapshot(&[("old.txt", b"aaa")]);
    let new = snapshot(&[("new.txt", b"bbb")]);
    let result = diff(&old, &new);
    assert!(result.renamed.is_empty());
    assert_eq!(result.added.len(), 1);
    assert_eq!(result.removed.len(), 1);
}

#[test]
fn copy_is_added_not_renamed() {
    let old = snapshot(&[("a.txt", b"x")]);
    let new = snapshot(&[("a.txt", b"x"), ("copy/a.txt", b"x")]);
    let result = diff(&old, &new);
    assert_eq!(result.added.len(), 1);
    assert!(result.renamed.is_empty());
}

#[test]
fn rename_shuffle_is_deterministic() {
    let old = snapshot(&[("a1.txt", b"x"), ("a2.txt", b"x"), ("b.txt", b"y")]);
    let new = snapshot(&[("b.txt", b"y"), ("z1.txt", b"x"), ("z2.txt", b"x")]);
    let result = diff(&old, &new);

    assert_eq!(result.renamed.len(), 2);
    assert_eq!(result.renamed[0].from.as_str(), "a1.txt");
    assert_eq!(result.renamed[0].to.as_str(), "z1.txt");
    assert_eq!(result.renamed[1].from.as_str(), "a2.txt");
    assert_eq!(result.renamed[1].to.as_str(), "z2.txt");
}

#[test]
fn diff_counts_every_kind_of_change() {
    let old = snapshot(&[("a", b"1"), ("b", b"2"), ("c", b"3")]);
    let new = snapshot(&[("a", b"1!"), ("d", b"3"), ("e", b"5")]);
    let result = diff(&old, &new);
    assert_eq!(result.modified.len(), 1);
    assert_eq!(result.renamed.len(), 1);
    assert_eq!(result.renamed[0].from.as_str(), "c");
    assert_eq!(result.renamed[0].to.as_str(), "d");
    assert_eq!(result.removed.len(), 1);
    assert_eq!(result.removed[0].path.as_str(), "b");
    assert_eq!(result.added.len(), 1);
    assert_eq!(result.added[0].path.as_str(), "e");
    assert_eq!(result.changes(), 4);
}

#[test]
fn change_count_counts_each_rename_once() {
    let old = snapshot(&[("a.txt", b"same"), ("b.txt", b"dup"), ("c.txt", b"dup"), ("keep.txt", b"k1"), ("x.txt", b"x")]);
    let new = snapshot(&[("d.txt", b"dup"), ("keep.txt", b"k2"), ("moved.txt", b"same"), ("y.txt", b"y")]);
    let result = diff(&old, &new);
    // Only in new: d, moved, y (3); only in old: a, b, c, x (4).
    assert_eq!(result.renamed.len(), 2);
    assert_eq!(result.added.len() + result.renamed.len(), 3);
    assert_eq!(result.removed.len() + result.renamed.len(), 4);
    assert_eq!(result.modified.len(), 1);
    assert_eq!(result.changes(), 3 + 4 - 2 + 1);
}

#[test]
fn diff_lists_no_more_changes_than_files() {
    let old = snapshot(&[("a.txt", b"1"), ("b.txt", b"2")]);
    let new = snapshot(&[("c.txt", b"3"), ("d.txt", b"4"), ("a.txt", b"9")]);
    let result = diff(&old, &new);
    assert!(result.changes() <= old.len() + new.len());
    assert_eq!(result.changes(), 4);
}
