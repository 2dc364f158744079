use reposync::model::blob::{Blob, BlobId};
use reposync::model::commit::CommitId;
use reposync::model::mode::{mode_from_permissions, FileMode};
use reposync::model::path::RepoPath;
use reposync::model::snapshot::{FileEntry, RepositorySnapshot};

fn path(p: &str) -> RepoPath {
    RepoPath::new(p.to_string()).unwrap()
}

fn file(p: &str, content: &[u8]) -> FileEntry {
    FileEntry::regular(path(p), Blob::from_bytes(content))
}

#[test]
fn hash_is_stable_and_content_sensitive() {
    let a = Blob::from_bytes(b"hello");
    let b = Blob::from_bytes(b"hello");
    let c = Blob::from_bytes(b"hello!");
    assert_eq!(a.hash(), b.hash());
    assert_ne!(a.hash(), c.hash());
    assert_eq!(a.hash().to_hex().len(), 64);
}

#[test]
fn blob_hash_is_the_sha256_of_the_content() {
    let a = Blob::from_bytes(b"hello");
    assert_eq!(a.hash().to_hex(), "2cf24dba5fb0a30e26e83b2ac5b9e29e1b161e5c1fa7425e73043362938b9824");
    assert_eq!(a.content(), b"hello");
    assert_eq!(a.len(), 5);
    assert!(!a.is_empty());
    assert!(Blob::from_bytes(b"").is_empty());
}

#[test]
fn blob_id_hex_round_trips() {
    let id = Blob::from_bytes(b"payload").hash();
    let back = BlobId::from_hex(&id.to_hex()).unwrap();
    assert_eq!(back, id);
    assert_eq!(BlobId::from_hex("zz"), None);
    assert_eq!(BlobId::from_bytes(*id.as_bytes()), id);
}

#[test]
fn rejects_empty_commit_id() {
    assert!(CommitId::new(String::new()).is_err());
    assert!(CommitId::new("abc123".to_string()).is_ok());
}

#[test]
fn git_mode_round_trip() {
    assert_eq!(FileMode::File.to_u32(), 0o100_644);
    assert_eq!(FileMode::Executable.to_u32(), 0o100_755);
    assert_eq!(FileMode::Symlink.to_u32(), 0o120_000);
    assert_eq!(FileMode::Gitlink.to_u32(), 0o160_000);
    assert_eq!(FileMode::from_u32(0o100_644), Some(FileMode::File));
    assert_eq!(FileMode::from_u32(0o100_755), Some(FileMode::Executable));
    assert_eq!(FileMode::from_u32(0o100_000), None);
}

#[test]
fn every_mode_survives_its_git_integer() {
    for mode in [FileMode::File, FileMode::Executable, FileMode::Symlink, FileMode::Gitlink] {
        assert_eq!(FileMode::from_u32(mode.to_u32()), Some(mode));
    }
    assert_eq!(mode_from_permissions(0o755), FileMode::Executable);
    assert_eq!(mode_from_permissions(0o644), FileMode::File);
    assert_eq!(mode_from_permissions(0o620), FileMode::File);
    assert_eq!(mode_from_permissions(0o601), FileMode::Executable);
}

#[test]
fn accepts_valid_paths() {
    for p in ["a", "a/b/c", "foo.txt", "dir/file.rs", "packages/sdk/src/lib.rs"] {
        assert!(RepoPath::new(p.to_string()).is_ok(), "expected `{p}` to be valid");
    }
}

#[test]
fn rejects_invalid_paths() {
    for p in ["", "/a", "a//b", "a/", "./a", "../a", "a/../b", "a/.", "a/./b", "a\0b"] {
        assert!(RepoPath::new(p.to_string()).is_err(), "expected `{p}` to be rejected");
    }
}

#[test]
fn parent_and_file_name() {
    let p = path("a/b/c.rs");
    assert_eq!(p.parent(), Some(path("a/b")));
    assert_eq!(p.file_name(), "c.rs");

    let single = path("c.rs");
    assert_eq!(single.parent(), None);
    assert_eq!(single.file_name(), "c.rs");
}

#[test]
fn join_combines_paths() {
    let base = path("a/b");
    assert_eq!(base.join("c/d").unwrap(), path("a/b/c/d"));
    assert_eq!(base.join("/c").unwrap(), path("a/b/c"));
    assert_eq!(base.join("").unwrap(), base);
}

#[test]
fn join_refuses_what_would_be_invalid() {
    let base = path("a");
    assert!(base.join("../b").is_err());
    assert!(base.join("b//c").is_err());
}

#[test]
fn insert_get_remove() {
    let mut snapshot = RepositorySnapshot::new();
    assert!(snapshot.is_empty());

    snapshot.insert(file("a.txt", b"a"));
    snapshot.insert(file("b/c.txt", b"c"));
    assert_eq!(snapshot.len(), 2);

    let a = path("a.txt");
    assert!(snapshot.contains(&a));
    assert_eq!(snapshot.get(&a).unwrap().content.content(), b"a");

    let removed = snapshot.remove(&a).unwrap();
    assert_eq!(removed.path, a);
    assert_eq!(snapshot.len(), 1);
}

#[test]
fn insert_replaces_and_returns_the_old_entry() {
    let mut snapshot = RepositorySnapshot::new();
    assert!(snapshot.insert(file("a.txt", b"one")).is_none());
    let old = snapshot.insert(file("a.txt", b"two")).unwrap();
    assert_eq!(old.content.content(), b"one");
    assert_eq!(snapshot.len(), 1);
    assert_eq!(snapshot.get(&path("a.txt")).unwrap().content.content(), b"two");
    assert!(snapshot.remove(&path("missing")).is_none());
}

#[test]
fn iteration_is_deterministic() {
    let mut snapshot = RepositorySnapshot::new();
    snapshot.insert(file("z.txt", b"z"));
    snapshot.insert(file("a.txt", b"a"));
    snapshot.insert(file("m/x.txt", b"x"));

    let all = snapshot.paths();
    let paths: Vec<&str> = all.iter().map(RepoPath::as_str).collect();
    assert_eq!(paths, vec!["a.txt", "m/x.txt", "z.txt"]);
    assert_eq!(paths, {
        let mut sorted = paths.clone();
        sorted.sort_unstable();
        sorted
    });
}

#[test]
fn from_files_keeps_the_last_entry_per_path() {
    let snapshot = RepositorySnapshot::from_files(vec![file("b", b"1"), file("a", b"2"), file("b", b"3")]);
    assert_eq!(snapshot.len(), 2);
    assert_eq!(snapshot.get(&path("b")).unwrap().content.content(), b"3");
    let names: Vec<String> = snapshot.iter().iter().map(|e| e.path.as_str().to_string()).collect();
    assert_eq!(names, vec!["a".to_string(), "b".to_string()]);
}

#[test]
fn blob_with_hash_rejects_tampering() {
    let good = Blob::from_bytes(b"payload").hash();
    let back = Blob::with_hash(&good, b"payload".to_vec()).unwrap();
    assert_eq!(back.content(), b"payload");
    assert!(Blob::with_hash(&good, b"payload!".to_vec()).is_none());
    let zero = BlobId::from_hex(&"00".repeat(32)).unwrap();
    assert!(Blob::with_hash(&zero, b"payload".to_vec()).is_none());
}

#[test]
fn model_errors_have_messages() {
    let e = RepoPath::new("/a".to_string()).unwrap_err();
    assert!(e.message().starts_with("invalid repository path `/a`: "));
    assert_eq!(CommitId::new(String::new()).unwrap_err().message(), "invalid commit id ``: must not be empty");
    assert_eq!(reposync::model::error::Error::UnsupportedMode(0o100000).message(), "unsupported file mode 0o100000");
}

#[test]
fn parent_joined_with_file_name_is_the_path() {
    for p in ["a/b/c.rs", "dir/file", "x/y"] {
        let full = path(p);
        let parent = full.parent().unwrap();
        assert_eq!(parent.join(&full.file_name()).unwrap(), full);
    }
}

#[test]
fn snapshot_length_follows_insert_and_remove() {
    let mut snapshot = RepositorySnapshot::new();
    assert!(snapshot.insert(file("a.txt", b"a")).is_none());
    assert_eq!(snapshot.len(), 1);
    assert!(snapshot.insert(file("a.txt", b"b")).is_some());
    assert_eq!(snapshot.len(), 1);
    assert!(snapshot.insert(file("b/c.txt", b"c")).is_none());
    assert_eq!(snapshot.len(), 2);
    assert!(snapshot.remove(&path("missing")).is_none());
    assert_eq!(snapshot.len(), 2);
    assert!(snapshot.remove(&path("a.txt")).is_some());
    assert_eq!(snapshot.len(), 1);
}

#[test]
fn parent_is_a_valid_path_that_joins_back() {
    let p = path("a/b/c.txt");
    let parent = p.parent().unwrap();
    assert_eq!(parent.as_str(), "a/b");
    assert!(RepoPath::new(parent.as_str().to_string()).is_ok());
    assert_eq!(format!("{}/{}", parent.as_str(), p.file_name()), p.as_str());
    assert_eq!(parent.join(&p.file_name()).unwrap(), p);
    assert!(path("top").parent().is_none());
}

#[test]
fn metadata_mut_changes_only_the_metadata() {
    let mut snapshot = RepositorySnapshot::new();
    snapshot.insert(file("a.txt", b"a"));
    snapshot.metadata_mut().head_message = Some("initial commit".to_string());
    snapshot.metadata_mut().custom.insert("k".to_string(), "v".to_string());
    assert_eq!(snapshot.metadata().head_message.as_deref(), Some("initial commit"));
    assert_eq!(snapshot.metadata().custom.get("k").map(|v| v.as_str()), Some("v"));
    assert_eq!(snapshot.len(), 1);
}
