use reposync::marker::{generated_source, mark_generated, GENERATED_TRAILER};
use reposync::model::commit::CommitId;

fn id(s: &str) -> CommitId {
    CommitId::new(s.to_string()).unwrap()
}

#[test]
fn round_trips_source_id() {
    let source = id("abc123");
    let marked = mark_generated("subject\n\nbody", &source);
    assert!(marked.contains("RepoSync-Generated: abc123"));
    assert_eq!(generated_source(&marked), Some(source));
}

#[test]
fn returns_none_for_plain_messages() {
    assert_eq!(generated_source("just a normal commit"), None);
    assert_eq!(generated_source(""), None);
}

#[test]
fn marked_message_has_the_exact_trailer() {
    assert_eq!(mark_generated("msg", &id("f00d")), "msg\n\nRepoSync-Generated: f00d");
    assert_eq!(GENERATED_TRAILER, "RepoSync-Generated");
}

#[test]
fn first_marker_line_wins_and_is_trimmed() {
    let message = "subject\r\n  RepoSync-Generated:   aaa  \r\nRepoSync-Generated: bbb";
    assert_eq!(generated_source(message), Some(id("aaa")));
}

#[test]
fn marker_without_an_id_is_skipped() {
    let message = "RepoSync-Generated:   \nRepoSync-Generated: ccc";
    assert_eq!(generated_source(message), Some(id("ccc")));
    assert_eq!(generated_source("RepoSync-Generated"), None);
    assert_eq!(generated_source("x RepoSync-Generated: ddd"), None);
}
