use reposync::git::CommitSpec;
use reposync::history::{recorded_destination, CommitMap, HistoryReplay};
use reposync::marker::generated_source;
use reposync::model::blob::Blob;
use reposync::model::commit::{Commit, CommitId, Signature};
use reposync::model::mode::FileMode;
use reposync::model::path::RepoPath;
use reposync::model::snapshot::{FileEntry, RepositorySnapshot};
use reposync::state::{epoch_seconds, now};
use reposync::sync::{mirror_commit_spec, plan_outcome};
use reposync::workdir::{child_path, target_path, write_action, WriteAction};

fn id(s: &str) -> CommitId {
    CommitId::new(s.to_string()).unwrap()
}

fn sig(name: &str, email: &str) -> Signature {
    Signature::new(name.to_string(), email.to_string(), 1_700_000_000, 60)
}

#[test]
fn commit_map_keeps_the_latest_mapping() {
    let mut map = CommitMap::new();
    assert_eq!(map.get(&id("s1")), None);
    map.insert(id("s1"), id("d1"));
    map.insert(id("s2"), id("d2"));
    map.insert(id("s1"), id("d3"));
    assert_eq!(map.get(&id("s1")), Some(id("d3")));
    assert_eq!(map.get(&id("s2")), Some(id("d2")));
    assert_eq!(map.get(&id("s3")), None);
}

#[test]
fn replay_plans_rewritten_commits() {
    let mut replay = HistoryReplay::new();
    replay.skip(id("a"), id("A"));
    let info = Commit::new(
        id("b"),
        vec![id("a"), id("unmapped")],
        "subject".to_string(),
        sig("Alice", "alice@internal"),
        sig("Bob", "bob@internal"),
    );
    let author_map = vec![("alice@internal".to_string(), "alice@public".to_string())];
    let plan = replay.plan_commit(&id("b"), &info, Some(&author_map), Some("[mirror] "));
    assert_eq!(plan.spec.message, "[mirror] subject\n\nRepoSync-Generated: b");
    assert_eq!(generated_source(&plan.spec.message), Some(id("b")));
    let author = plan.spec.author.unwrap();
    assert_eq!(author.name, "Alice");
    assert_eq!(author.email, "alice@public");
    assert_eq!(author.time, 1_700_000_000);
    assert_eq!(author.offset_minutes, 60);
    assert_eq!(plan.spec.committer.unwrap().email, "bob@internal");
    assert_eq!(plan.parents, vec![id("A")]);

    replay.replayed_as(id("b"), id("B"));
    let report = replay.finish();
    assert_eq!(report.commits_replayed, 1);
    assert_eq!(report.commits_skipped, 1);
    assert_eq!(report.last_commit, Some(id("B")));
}

#[test]
fn replay_without_options_keeps_message_and_identities() {
    let replay = HistoryReplay::new();
    let info = Commit::new(id("c"), vec![], "m".to_string(), sig("A", "a@x"), sig("A", "a@x"));
    let plan = replay.plan_commit(&id("c"), &info, None, None);
    assert_eq!(plan.spec.message, "m\n\nRepoSync-Generated: c");
    assert_eq!(plan.spec.author.unwrap().email, "a@x");
    assert!(plan.parents.is_empty());
    assert!(replay.can_count());
}

#[test]
fn recorded_destinations() {
    assert_eq!(recorded_destination(Some("d4e5f6".to_string())), Some(id("d4e5f6")));
    assert_eq!(recorded_destination(Some(String::new())), None);
    assert_eq!(recorded_destination(None), None);
}

fn snapshot(files: &[(&str, &[u8])]) -> RepositorySnapshot {
    let mut s = RepositorySnapshot::new();
    for (p, c) in files {
        s.insert(FileEntry::regular(RepoPath::new(p.to_string()).unwrap(), Blob::from_bytes(c)));
    }
    s
}

#[test]
fn unchanged_output_plans_no_commit() {
    let dest = snapshot(&[("a", b"1")]);
    let same = snapshot(&[("a", b"1")]);
    let plan = plan_outcome(&dest, &same);
    assert!(!plan.changed);
    assert!(plan.diff.is_empty());
    let changed = snapshot(&[("a", b"2")]);
    let plan = plan_outcome(&dest, &changed);
    assert!(plan.changed);
    assert_eq!(plan.diff.modified.len(), 1);
}

#[test]
fn mirror_commits_are_marked() {
    let commit = CommitSpec::new("migrate: x".to_string());
    let marked = mirror_commit_spec(&commit, Some(&id("abc")));
    assert_eq!(marked.message, "migrate: x\n\nRepoSync-Generated: abc");
    assert!(marked.author.is_none());
    let plain = mirror_commit_spec(&commit, None);
    assert_eq!(plain.message, "migrate: x");
}

#[test]
fn timestamps() {
    assert_eq!(epoch_seconds(Some(1_700_000_000)), 1_700_000_000);
    assert_eq!(epoch_seconds(Some(u64::MAX)), i64::MAX);
    assert_eq!(epoch_seconds(None), 0);
    assert!(now() > 1_600_000_000);
}

#[test]
fn working_tree_layout() {
    assert_eq!(write_action(FileMode::File), WriteAction::File { executable: false });
    assert_eq!(write_action(FileMode::Executable), WriteAction::File { executable: true });
    assert_eq!(write_action(FileMode::Symlink), WriteAction::Symlink);
    assert_eq!(write_action(FileMode::Gitlink), WriteAction::Unsupported);
    let p = RepoPath::new("a/b.txt".to_string()).unwrap();
    assert_eq!(target_path("/out", &p), "/out/a/b.txt");
    assert_eq!(child_path("", "x"), "x");
    assert_eq!(child_path("a/b", "x"), "a/b/x");
}

fn paths(ps: &[&str]) -> Vec<String> {
    ps.iter().map(|p| p.to_string()).collect()
}

#[test]
fn tree_levels_group_by_first_segment() {
    let level = reposync::git::plan_tree_level(&paths(&["b/x", "a.txt", "b/y/z", "a/q", "c"])).unwrap();
    assert_eq!(level.files, vec![1, 4]);
    let names: Vec<&str> = level.dirs.iter().map(|d| d.name.as_str()).collect();
    assert_eq!(names, vec!["a", "b"]);
    assert_eq!(level.dirs[0].children, vec![("q".to_string(), 3)]);
    assert_eq!(level.dirs[1].children, vec![("x".to_string(), 0), ("y/z".to_string(), 2)]);
    assert!(level.dirs.iter().all(|d| !d.clashes));
}

#[test]
fn tree_level_conflicts() {
    assert_eq!(reposync::git::plan_tree_level(&paths(&["a/b", "a"])).unwrap_err(), 1);
    let level = reposync::git::plan_tree_level(&paths(&["a", "a/b"])).unwrap();
    assert!(level.dirs[0].clashes);
}
