use reposync::config::schema::Policy;
use reposync::diff::diff;
use reposync::model::blob::Blob;
use reposync::model::path::RepoPath;
use reposync::model::snapshot::{FileEntry, RepositorySnapshot};
use reposync::policy::{check, glob_matches};

fn glob(pattern: &str, path: &str) -> bool {
    let p: Vec<char> = pattern.chars().collect();
    let t: Vec<char> = path.chars().collect();
    glob_matches(&p, &t)
}

fn snapshot(paths: &[&str]) -> RepositorySnapshot {
    let mut s = RepositorySnapshot::new();
    for p in paths {
        s.insert(FileEntry::regular(RepoPath::new(p.to_string()).unwrap(), Blob::from_bytes(p.as_bytes())));
    }
    s
}

#[test]
fn globs_match_segments() {
    assert!(glob("*.pem", "key.pem"));
    assert!(!glob("*.pem", "dir/key.pem"));
    assert!(glob("**/*.pem", "dir/sub/key.pem"));
    assert!(glob("**/*.pem", "key.pem"));
    assert!(glob("packages/sdk/**", "packages/sdk/src/lib.rs"));
    assert!(!glob("packages/sdk/**", "packages/sdkx/lib.rs"));
    assert!(glob("**/secrets/**", "config/secrets/api.key"));
    assert!(glob("**/secrets/**", "secrets/api.key"));
    assert!(!glob("**/.internal", "a/b.internal"));
    assert!(glob("**/.internal", "a/b/.internal"));
    assert!(glob(".env", ".env"));
    assert!(!glob(".env", "a/.env"));
    assert!(glob("a?c", "abc"));
    assert!(!glob("a?c", "a/c"));
    assert!(glob("**", ""));
    assert!(!glob("", "a"));
    assert!(glob("", ""));
}

#[test]
fn denied_and_review_paths_are_reported() {
    let old = snapshot(&[".env", "src/lib.rs"]);
    let output = snapshot(&[".env", "package.json", "src/lib.rs"]);
    let policy = Policy {
        deny: vec![".env".to_string(), "**/credentials/**".to_string()],
        require_review: vec!["package.json".to_string()],
        max_deleted_files: None,
    };
    let report = check(&policy, &diff(&old, &output), &output);
    assert_eq!(report.denied.len(), 1);
    assert_eq!(report.denied[0].path.as_str(), ".env");
    assert_eq!(report.denied[0].pattern, ".env");
    assert_eq!(report.review.len(), 1);
    assert_eq!(report.review[0].path.as_str(), "package.json");
    assert_eq!(report.deleted_count, 0);
    assert!(!report.allowed);
    assert!(!report.is_allowed());
}

#[test]
fn review_alone_blocks_but_is_allowed_by_deny_rules() {
    let output = snapshot(&["package.json"]);
    let policy = Policy { deny: vec![], require_review: vec!["package.json".to_string()], max_deleted_files: None };
    let report = check(&policy, &diff(&output, &output), &output);
    assert!(report.allowed);
    assert!(!report.is_allowed());
}

#[test]
fn deletion_limit_is_enforced() {
    let old = snapshot(&["a", "b", "c"]);
    let new = snapshot(&["a"]);
    let d = diff(&old, &new);
    let strict = Policy { deny: vec![], require_review: vec![], max_deleted_files: Some(1) };
    let report = check(&strict, &d, &new);
    assert_eq!(report.deleted_count, 2);
    assert!(!report.is_allowed());
    let loose = Policy { deny: vec![], require_review: vec![], max_deleted_files: Some(2) };
    assert!(check(&loose, &d, &new).is_allowed());
    let unlimited = Policy::default();
    assert!(check(&unlimited, &d, &new).is_allowed());
}
