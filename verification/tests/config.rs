use std::collections::BTreeMap;

use reposync::config::pipeline::{history_transforms, snapshot_transform_plan};
use reposync::config::schema::{
    AuthorMappingArgs, CommitMessageArgs, ConfigFile, Destination, EngineSupport, FilterArgs,
    MoveArgs, PipelineInfo, RenameArgs, Source, TransformKind, TransformNode,
};
use reposync::config::source::{is_valid_git_url, normalize_url};

fn config(source_url: &str, dest_url: &str, transform: Vec<TransformNode>) -> ConfigFile {
    ConfigFile {
        pipeline: PipelineInfo { name: Some("x".to_string()) },
        source: Source::Git { url: source_url.to_string(), ref_name: "main".to_string() },
        transform,
        destination: Destination::Git { url: dest_url.to_string(), branch: "main".to_string() },
        policy: None,
    }
}

fn move_node(from: &str, to: &str) -> TransformNode {
    TransformNode {
        move_: Some(MoveArgs { from: from.to_string(), to: to.to_string() }),
        ..TransformNode::default()
    }
}

#[test]
fn accepts_common_git_locations() {
    for url in [
        "git@github.com:org/repo.git",
        "ssh://git@github.com/org/repo.git",
        "https://github.com/org/repo.git",
        "http://host/repo.git",
        "git://host/repo.git",
        "file:///tmp/repo",
        "/abs/path/to/repo",
        "./relative",
        "../up/repo",
        "~/code/repo",
    ] {
        assert!(is_valid_git_url(url), "expected `{url}` to be valid");
    }
}

#[test]
fn rejects_non_git_locations() {
    for url in ["", "   ", "not a url", "https://", "git@:", "git@host", "foo"] {
        assert!(!is_valid_git_url(url), "expected `{url}` to be rejected");
    }
}

#[test]
fn normalization_makes_equivalence() {
    assert_eq!(normalize_url("git@h:o/repo.git"), "git@h:o/repo");
    assert_eq!(normalize_url("git@h:o/repo.git/"), "git@h:o/repo");
    assert_eq!(normalize_url(" https://h/o.git "), "https://h/o");
    assert_ne!(normalize_url("a/repo"), normalize_url("b/repo"));
}

#[test]
fn type_names() {
    let source = Source::Git { url: "u".into(), ref_name: "main".into() };
    assert_eq!(source.provider_name(), "git");
}

#[test]
fn detects_kind() {
    let node = TransformNode {
        filter: Some(FilterArgs { paths: vec!["a".into()] }),
        ..TransformNode::default()
    };
    assert_eq!(node.kind(), Some(TransformKind::Filter));
    assert_eq!(node.kind_count(), 1);
}

#[test]
fn engine_support_gates() {
    for kind in [
        TransformKind::Filter,
        TransformKind::Replace,
        TransformKind::DependencyRewrite,
        TransformKind::RegexReplace,
        TransformKind::Prepend,
        TransformKind::Append,
        TransformKind::Patch,
        TransformKind::Metadata,
        TransformKind::Custom,
    ] {
        assert_eq!(kind.engine_support(), EngineSupport::Supported);
    }
}

#[test]
fn same_repo_detected_across_normalization() {
    let config = config("git@github.com:acme/repo.git", "git@github.com:acme/repo.git/", vec![]);
    let errors = config.validate();
    assert!(errors.iter().any(|e| e.message().contains("same repository")));
}

#[test]
fn move_to_root_is_valid() {
    let config = config(
        "git@github.com:acme/monorepo.git",
        "git@github.com:acme/public-sdk.git",
        vec![move_node("packages/sdk", ".")],
    );
    let errors = config.validate();
    assert!(errors.is_empty(), "{errors:#?}");
}

#[test]
fn path_prefix_rejects_absolute_and_dotdot() {
    let rename = TransformNode {
        rename: Some(RenameArgs { from: "a".into(), to: "../escape".into() }),
        ..TransformNode::default()
    };
    let config = config(
        "git@github.com:acme/monorepo.git",
        "git@github.com:acme/public-sdk.git",
        vec![move_node("/abs", "."), rename],
    );
    let errors = config.validate();
    assert!(errors.iter().any(|e| e.message().contains("must be a relative path")), "{errors:#?}");
    assert!(errors.iter().any(|e| e.message().contains("must not contain '..'")), "{errors:#?}");
}

#[test]
fn node_with_two_transforms_is_rejected() {
    let node = TransformNode {
        filter: Some(FilterArgs { paths: vec!["a".into()] }),
        move_: Some(MoveArgs { from: "a".into(), to: "b".into() }),
        ..TransformNode::default()
    };
    let config = config(
        "git@github.com:acme/monorepo.git",
        "git@github.com:acme/public-sdk.git",
        vec![node],
    );
    let errors = config.validate();
    assert!(errors.iter().any(|e| e.message().contains("exactly one transformation")), "{errors:#?}");
}

#[test]
fn url_accessors_give_the_configured_locations() {
    let config = config("git@h:a/src.git", "git@h:a/dst.git", vec![]);
    assert_eq!(config.source.url(), "git@h:a/src.git");
    assert_eq!(config.destination.url(), "git@h:a/dst.git");
    assert_eq!(config.destination.provider_name(), "git");
}

#[test]
fn kind_is_first_set_and_count_counts_all() {
    let node = TransformNode {
        filter: Some(FilterArgs { paths: vec!["a".into()] }),
        move_: Some(MoveArgs { from: "a".into(), to: "b".into() }),
        ..TransformNode::default()
    };
    assert_eq!(node.kind(), Some(TransformKind::Filter));
    assert_eq!(node.kind_count(), 2);
    assert_eq!(TransformNode::default().kind(), None);
    assert_eq!(TransformNode::default().kind_count(), 0);
    assert_eq!(TransformKind::StripPrefix.as_str(), "strip_prefix");
    assert_eq!(TransformKind::Move.as_str(), "move");
}

#[test]
fn snapshot_plan_skips_history_only_nodes() {
    let mut mapping = BTreeMap::new();
    mapping.insert("a@x".to_string(), "a@y".to_string());
    let nodes = vec![
        TransformNode { filter: Some(FilterArgs { paths: vec!["**".into()] }), ..TransformNode::default() },
        TransformNode { author_mapping: Some(AuthorMappingArgs { mapping }), ..TransformNode::default() },
        TransformNode::default(),
        move_node("a", "b"),
        TransformNode { commit_message: Some(CommitMessageArgs { message: "[m] ".into() }), ..TransformNode::default() },
    ];
    let config = config("/src", "/dst", nodes);
    let plan = snapshot_transform_plan(&config);
    assert_eq!(plan, vec![(0, TransformKind::Filter), (3, TransformKind::Move)]);
}

#[test]
fn history_transforms_take_the_last_setting() {
    let mut first = BTreeMap::new();
    first.insert("a@x".to_string(), "a@y".to_string());
    let mut second = BTreeMap::new();
    second.insert("b@x".to_string(), "b@y".to_string());
    let nodes = vec![
        TransformNode { author_mapping: Some(AuthorMappingArgs { mapping: first }), ..TransformNode::default() },
        TransformNode { commit_message: Some(CommitMessageArgs { message: "one".into() }), ..TransformNode::default() },
        TransformNode { author_mapping: Some(AuthorMappingArgs { mapping: second.clone() }), ..TransformNode::default() },
    ];
    let (map, prefix) = history_transforms(&config("/src", "/dst", nodes));
    assert_eq!(map, Some(second));
    assert_eq!(prefix, Some("one".to_string()));
    let (none_map, none_prefix) = history_transforms(&config("/src", "/dst", vec![]));
    assert_eq!(none_map, None);
    assert_eq!(none_prefix, None);
}

#[test]
fn empty_name_and_ref_are_reported_exactly() {
    let mut config = config("/src", "/dst", vec![]);
    config.pipeline.name = Some(String::new());
    config.source = Source::Git { url: "/src".into(), ref_name: String::new() };
    let errors = config.validate();
    let messages: Vec<&str> = errors.iter().map(|e| e.message()).collect();
    assert!(messages.contains(&"pipeline.name must not be empty"), "{messages:#?}");
    assert!(messages.contains(&"source.ref must not be empty"), "{messages:#?}");
}

#[test]
fn normal_forms_are_stable() {
    for url in ["git@h:o/repo.git", " https://h/o.git/ ", "/local/path", "x.git.git"] {
        let once = normalize_url(url);
        assert_eq!(normalize_url(&once), once);
    }
    assert_eq!(normalize_url("repo/.git"), "repo/");
    assert_eq!(normalize_url("repo/"), "repo");
}

#[test]
fn single_transform_names_the_node_kind() {
    let moved = move_node("a", "b");
    assert_eq!(moved.kind_count(), 1);
    assert_eq!(moved.kind(), Some(TransformKind::Move));
    let renamed = TransformNode {
        rename: Some(RenameArgs { from: "x".into(), to: "y".into() }),
        ..TransformNode::default()
    };
    assert_eq!((renamed.kind_count(), renamed.kind()), (1, Some(TransformKind::Rename)));
    let empty = TransformNode::default();
    assert_eq!((empty.kind_count(), empty.kind()), (0, None));
}
