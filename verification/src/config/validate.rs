//! Semantic validation of a parsed pipeline configuration.
use vstd::prelude::*;

use std::collections::BTreeMap;

use crate::config::schema::{
    AppendArgs, AuthorMappingArgs, CommitMessageArgs, ConfigFile, CustomArgs, DeleteArgs,
    DependencyRewriteArgs, Destination, EngineSupport, FilterArgs, ImportRewriteArgs,
    MetadataArgs, PatchArgs, Policy, PrependArgs, RegexReplaceArgs, ReplaceArgs, Source,
    StripPrefixArgs, TransformKind, TransformNode,
};
use crate::config::source::{is_valid_git_url, normal_url, normalize_url, valid_git_url};
use crate::text::{blank, chars_of, concat_chars, decimal, decimal_chars, is_blank, string_of};

verus! {

/// A single problem found during semantic validation.
#[derive(Debug, Clone, PartialEq, Eq)]
pub struct ValidationError {
    message: String,
}

impl View for ValidationError {
    type V = Seq<char>;

    closed spec fn view(&self) -> Seq<char> {
        self.message@
    }
}

impl ValidationError {
    /// Creates a validation error with a human-readable message.
    pub fn new(message: String) -> (r: ValidationError)
        ensures
            r@ == message@,
    {
        ValidationError { message }
    }

    /// Returns the error message.
    pub fn message(&self) -> (r: &str)
        ensures
            r@ == self@,
    {
        self.message.as_str()
    }
}

/// The messages of a list of validation errors.
pub open spec fn messages(v: Seq<ValidationError>) -> Seq<Seq<char>> {
    v.map_values(|e: ValidationError| e@)
}

/// The texts of a list of strings.
pub open spec fn texts(v: Seq<String>) -> Seq<Seq<char>> {
    v.map_values(|s: String| s@)
}

/// `<label> must not be empty`.
pub open spec fn must_not_be_empty(label: Seq<char>) -> Seq<char> {
    label + " must not be empty"@
}

/// `<label>[<i>]`.
pub open spec fn index_label(label: Seq<char>, i: nat) -> Seq<char> {
    label + "["@ + decimal(i) + "]"@
}

/// `transform[<i>]: `, the prefix of every message about node `i`.
pub open spec fn node_label(i: nat) -> Seq<char> {
    "transform["@ + decimal(i) + "]: "@
}

/// The error for a blank required value.
pub open spec fn value_errors(value: Seq<char>, label: Seq<char>) -> Seq<Seq<char>> {
    if blank(value) {
        seq![must_not_be_empty(label)]
    } else {
        seq![]
    }
}

/// The errors for the blank entries among the first `m` of `list`.
pub open spec fn entry_errors(list: Seq<Seq<char>>, label: Seq<char>, m: int) -> Seq<Seq<char>>
    decreases m,
{
    if m <= 0 {
        seq![]
    } else if blank(list[m - 1]) {
        entry_errors(list, label, m - 1).push(must_not_be_empty(index_label(label, (m - 1) as nat)))
    } else {
        entry_errors(list, label, m - 1)
    }
}

/// The errors for a required non-empty list of non-blank entries.
pub open spec fn list_errors(list: Seq<Seq<char>>, label: Seq<char>) -> Seq<Seq<char>> {
    if list.len() == 0 {
        seq![must_not_be_empty(label)]
    } else {
        entry_errors(list, label, list.len() as int)
    }
}

/// A `..` segment of `s` starts at `j`.
pub open spec fn dotdot_at(s: Seq<char>, j: int) -> bool {
    &&& 0 <= j
    &&& j + 1 < s.len()
    &&& (j == 0 || s[j - 1] == '/')
    &&& s[j] == '.'
    &&& s[j + 1] == '.'
    &&& (j + 2 == s.len() || s[j + 2] == '/')
}

/// A `.` segment of `s` starts at `j`.
pub open spec fn dot_at(s: Seq<char>, j: int) -> bool {
    &&& 0 <= j < s.len()
    &&& (j == 0 || s[j - 1] == '/')
    &&& s[j] == '.'
    &&& (j + 1 == s.len() || s[j + 1] == '/')
}

/// The segment at `j` makes the prefix invalid (a `.` is allowed only as
/// the whole value, and only where the root is allowed).
pub open spec fn prefix_bad_at(s: Seq<char>, allow_root: bool, j: int) -> bool {
    dotdot_at(s, j) || (dot_at(s, j) && !(allow_root && s == seq!['.']))
}

/// `j` is the first offending segment of the prefix `s`.
pub open spec fn first_prefix_bad(s: Seq<char>, allow_root: bool, j: int) -> bool {
    prefix_bad_at(s, allow_root, j) && forall|k: int| 0 <= k < j ==> !prefix_bad_at(s, allow_root, k)
}

/// The errors for a relative path prefix.
pub open spec fn prefix_errors(value: Seq<char>, allow_root: bool, label: Seq<char>) -> Seq<Seq<char>> {
    if value.len() == 0 {
        seq![must_not_be_empty(label)]
    } else if value[0] == '/' {
        seq![label + " must be a relative path"@]
    } else if exists|j: int| first_prefix_bad(value, allow_root, j) {
        let j = choose|j: int| first_prefix_bad(value, allow_root, j);
        if dotdot_at(value, j) {
            seq![label + " must not contain '..'"@]
        } else {
            seq![label + " must not contain '.'"@]
        }
    } else {
        seq![]
    }
}

/// The errors for the `from`/`to` prefixes of a copy, move, or rename.
pub open spec fn from_to_errors(
    i: nat,
    name: Seq<char>,
    from: Seq<char>,
    to: Seq<char>,
    allow_root: bool,
) -> Seq<Seq<char>> {
    let label = node_label(i) + name;
    prefix_errors(from, false, label + ".from"@) + prefix_errors(to, allow_root, label + ".to"@)
        + if from.len() > 0 && from == to {
        seq![label + ".from"@ + " must not equal "@ + (label + ".to"@)]
    } else {
        seq![]
    }
}

/// The error for an empty map.
pub open spec fn map_errors<V>(m: BTreeMap<String, V>, label: Seq<char>) -> Seq<Seq<char>> {
    if m@.is_empty() {
        seq![must_not_be_empty(label)]
    } else {
        seq![]
    }
}

/// The errors for the arguments of node `i`, whose kind is `k`.
pub open spec fn args_errors(i: nat, node: TransformNode, k: TransformKind) -> Seq<Seq<char>> {
    let l = node_label(i);
    match k {
        TransformKind::Filter => list_errors(texts(node.filter->0.paths@), l + "filter.paths"@),
        TransformKind::Delete => list_errors(texts(node.delete->0.paths@), l + "delete.paths"@),
        TransformKind::Copy => from_to_errors(
            i,
            "copy"@,
            node.copy->0.from@,
            node.copy->0.to@,
            false,
        ),
        TransformKind::Move => from_to_errors(
            i,
            "move"@,
            node.move_->0.from@,
            node.move_->0.to@,
            true,
        ),
        TransformKind::Rename => from_to_errors(
            i,
            "rename"@,
            node.rename->0.from@,
            node.rename->0.to@,
            false,
        ),
        TransformKind::Replace => value_errors(node.replace->0.file@, l + "replace.file"@)
            + map_errors(node.replace->0.replacements, l + "replace.replacements"@),
        TransformKind::RegexReplace => list_errors(
            texts(node.regex_replace->0.files@),
            l + "regex_replace.files"@,
        ) + value_errors(node.regex_replace->0.pattern@, l + "regex_replace.pattern"@),
        TransformKind::StripPrefix => value_errors(
            node.strip_prefix->0.path@,
            l + "strip_prefix.path"@,
        ),
        TransformKind::Prepend => list_errors(texts(node.prepend->0.files@), l + "prepend.files"@)
            + value_errors(node.prepend->0.content@, l + "prepend.content"@),
        TransformKind::Append => list_errors(texts(node.append->0.files@), l + "append.files"@)
            + value_errors(node.append->0.content@, l + "append.content"@),
        TransformKind::Patch => value_errors(node.patch->0.file@, l + "patch.file"@) + value_errors(
            node.patch->0.patch@,
            l + "patch.patch"@,
        ),
        TransformKind::Metadata => value_errors(node.metadata->0.key@, l + "metadata.key"@),
        TransformKind::CommitMessage => value_errors(
            node.commit_message->0.message@,
            l + "commit_message.message"@,
        ),
        TransformKind::AuthorMapping => map_errors(
            node.author_mapping->0.mapping,
            l + "author_mapping.mapping"@,
        ),
        TransformKind::DependencyRewrite => if node.dependency_rewrite->0.package_rename@.is_empty()
            && node.dependency_rewrite->0.workspace_version is None {
            seq![l + "dependency_rewrite must set package_rename and/or workspace_version"@]
        } else {
            seq![]
        },
        TransformKind::ImportRewrite => map_errors(
            node.import_rewrite->0.renames,
            l + "import_rewrite.renames"@,
        ),
        TransformKind::Custom => value_errors(node.custom->0.name@, l + "custom.name"@)
            + value_errors(node.custom->0.path@, l + "custom.path"@),
    }
}

/// The errors for transform node `i`.
pub open spec fn node_errors(i: nat, node: TransformNode) -> Seq<Seq<char>> {
    match node.spec_kind() {
        None => seq![node_label(i) + "must specify exactly one transformation (e.g. `filter`)"@],
        Some(k) => if node.spec_kind_count() != 1 {
            seq![
                node_label(i) + "must specify exactly one transformation, found "@ + decimal(
                    node.spec_kind_count(),
                ),
            ]
        } else {
            args_errors(i, node, k)
        },
    }
}

/// The errors for the first `m` transform nodes.
pub open spec fn transforms_errors(nodes: Seq<TransformNode>, m: int) -> Seq<Seq<char>>
    decreases m,
{
    if m <= 0 {
        seq![]
    } else {
        transforms_errors(nodes, m - 1) + node_errors((m - 1) as nat, nodes[m - 1])
    }
}

/// The errors for the pipeline section.
pub open spec fn pipeline_errors(c: ConfigFile) -> Seq<Seq<char>> {
    match c.pipeline.name {
        Some(name) => value_errors(name@, "pipeline.name"@),
        None => seq![],
    }
}

/// The errors for a repository location and its ref or branch.
pub open spec fn location_errors(
    url: Seq<char>,
    url_label: Seq<char>,
    name: Seq<char>,
    name_label: Seq<char>,
) -> Seq<Seq<char>> {
    (if blank(url) {
        seq![must_not_be_empty(url_label)]
    } else if !valid_git_url(url) {
        seq![
            url_label + " `"@ + url
                + "` is not a recognized git URL (local path, SSH, or HTTPS)"@,
        ]
    } else {
        seq![]
    }) + value_errors(name, name_label)
}

/// The errors for the source section.
pub open spec fn source_errors(s: Source) -> Seq<Seq<char>> {
    match s {
        Source::Git { url, ref_name } => location_errors(
            url@,
            "source.url"@,
            ref_name@,
            "source.ref"@,
        ),
    }
}

/// The errors for the destination section.
pub open spec fn destination_errors(d: Destination) -> Seq<Seq<char>> {
    match d {
        Destination::Git { url, branch } => location_errors(
            url@,
            "destination.url"@,
            branch@,
            "destination.branch"@,
        ),
    }
}

/// The error when source and destination are the same repository.
pub open spec fn distinct_errors(c: ConfigFile) -> Seq<Seq<char>> {
    if normal_url(c.source.spec_url()) == normal_url(c.destination.spec_url()) {
        seq![
            "destination must not point at the same repository as source (`"@
                + c.source.spec_url() + "`)"@,
        ]
    } else {
        seq![]
    }
}

/// The errors for the policy section.
pub open spec fn policy_errors(c: ConfigFile) -> Seq<Seq<char>> {
    match c.policy {
        Some(p) => entry_errors(texts(p.deny@), "policy.deny"@, p.deny@.len() as int)
            + entry_errors(texts(p.require_review@), "policy.require_review"@, p.require_review@.len() as int),
        None => seq![],
    }
}

/// Every problem that semantic validation reports, in order.
pub open spec fn config_errors(c: ConfigFile) -> Seq<Seq<char>> {
    pipeline_errors(c) + source_errors(c.source) + destination_errors(c.destination)
        + distinct_errors(c) + transforms_errors(c.transform@, c.transform@.len() as int)
        + policy_errors(c)
}


/// Appends an error with message `m`.
fn push_msg(errors: &mut Vec<ValidationError>, m: Vec<char>)
    ensures
        messages(final(errors)@) == messages(old(errors)@).push(m@),
{
    errors.push(ValidationError::new(string_of(&m)));
    assert(messages(errors@) =~= messages(old(errors)@).push(m@));
}

/// `a` followed by `b`.
fn join(a: &[char], b: &[char]) -> (r: Vec<char>)
    ensures
        r@ == a@ + b@,
{
    concat_chars(a, b)
}

/// `transform[<i>]: `.
fn node_label_exec(i: usize) -> (r: Vec<char>)
    ensures
        r@ == node_label(i as nat),
{
    let a = join(&chars_of("transform["), &decimal_chars(i));
    join(&a, &chars_of("]: "))
}

fn check_non_empty(value: &str, label: &[char], errors: &mut Vec<ValidationError>)
    ensures
        messages(final(errors)@) == messages(old(errors)@) + value_errors(value@, label@),
{
    let v = chars_of(value);
    if is_blank(&v) {
        push_msg(errors, join(label, &chars_of(" must not be empty")));
    }
    assert(messages(errors@) =~= messages(old(errors)@) + value_errors(value@, label@));
}

fn check_list_entries(list: &Vec<String>, label: &[char], errors: &mut Vec<ValidationError>)
    ensures
        messages(final(errors)@) == messages(old(errors)@) + entry_errors(
            texts(list@),
            label@,
            list@.len() as int,
        ),
{
    let ghost start = messages(errors@);
    let ghost t = texts(list@);
    let mut i: usize = 0;
    while i < list.len()
        invariant
            i <= list@.len(),
            t == texts(list@),
            messages(errors@) == start + entry_errors(t, label@, i as int),
        decreases list@.len() - i,
    {
        let item = chars_of(list[i].as_str());
        if is_blank(&item) {
            let l = join(&join(&join(label, &chars_of("[")), &decimal_chars(i)), &chars_of("]"));
            push_msg(errors, join(&l, &chars_of(" must not be empty")));
        }
        proof {
            assert(t[i as int] == list@[i as int]@);
        }
        i = i + 1;
        assert(messages(errors@) =~= start + entry_errors(t, label@, i as int));
    }
}

fn check_non_empty_list(list: &Vec<String>, label: &[char], errors: &mut Vec<ValidationError>)
    ensures
        messages(final(errors)@) == messages(old(errors)@) + list_errors(texts(list@), label@),
{
    if list.len() == 0 {
        push_msg(errors, join(label, &chars_of(" must not be empty")));
        return;
    }
    check_list_entries(list, label, errors);
}

proof fn lemma_first_prefix_bad_unique(s: Seq<char>, allow_root: bool, j: int)
    requires
        first_prefix_bad(s, allow_root, j),
    ensures
        (choose|k: int| first_prefix_bad(s, allow_root, k)) == j,
{
    let k = choose|k: int| first_prefix_bad(s, allow_root, k);
    if k < j {
        assert(!prefix_bad_at(s, allow_root, k));
    } else if k > j {
        assert(!prefix_bad_at(s, allow_root, j));
    }
}

fn check_path_prefix(value: &str, allow_root: bool, label: &[char], errors: &mut Vec<ValidationError>)
    ensures
        messages(final(errors)@) == messages(old(errors)@) + prefix_errors(value@, allow_root, label@),
{
    let v = chars_of(value);
    let n = v.len();
    if n == 0 {
        push_msg(errors, join(label, &chars_of(" must not be empty")));
        return;
    }
    if v[0] == '/' {
        push_msg(errors, join(label, &chars_of(" must be a relative path")));
        return;
    }
    let whole_dot = n == 1 && v[0] == '.';
    proof {
        assert(whole_dot == (v@ == seq!['.'])) by {
            if v@ == seq!['.'] {
                assert(v@[0] == '.');
            }
            if whole_dot {
                assert(v@ =~= seq!['.']);
            }
        }
    }
    let ghost start = errors@;
    let mut j: usize = 0;
    while j < n
        invariant
            errors@ == start,
            start == old(errors)@,
            n == v@.len(),
            v@ == value@,
            n > 0,
            v@[0] != '/',
            whole_dot == (v@ == seq!['.']),
            j <= n,
            forall|k: int| 0 <= k < j ==> !prefix_bad_at(v@, allow_root, k),
        decreases n - j,
    {
        if j == 0 || v[j - 1] == '/' {
            if v[j] == '.' && j + 1 < n && v[j + 1] == '.' && (j + 2 == n || v[j + 2] == '/') {
                assert(first_prefix_bad(v@, allow_root, j as int));
                proof {
                    lemma_first_prefix_bad_unique(v@, allow_root, j as int);
                }
                push_msg(errors, join(label, &chars_of(" must not contain '..'")));
                assert(messages(errors@) =~= messages(old(errors)@) + prefix_errors(value@, allow_root, label@));
                return;
            }
            if v[j] == '.' && (j + 1 == n || v[j + 1] == '/') && !(allow_root && whole_dot) {
                assert(first_prefix_bad(v@, allow_root, j as int));
                assert(!dotdot_at(v@, j as int));
                proof {
                    lemma_first_prefix_bad_unique(v@, allow_root, j as int);
                }
                push_msg(errors, join(label, &chars_of(" must not contain '.'")));
                assert(messages(errors@) =~= messages(old(errors)@) + prefix_errors(value@, allow_root, label@));
                return;
            }
        }
        assert(!prefix_bad_at(v@, allow_root, j as int));
        j = j + 1;
    }
    assert(!exists|j: int| first_prefix_bad(v@, allow_root, j));
    assert(messages(errors@) =~= messages(old(errors)@) + prefix_errors(value@, allow_root, label@));
}

fn validate_from_to(
    index: usize,
    transform: &str,
    from: &str,
    to: &str,
    allow_root: bool,
    errors: &mut Vec<ValidationError>,
)
    ensures
        messages(final(errors)@) == messages(old(errors)@) + from_to_errors(
            index as nat,
            transform@,
            from@,
            to@,
            allow_root,
        ),
{
    let ghost start = messages(errors@);
    let label = join(&node_label_exec(index), &chars_of(transform));
    let from_label = join(&label, &chars_of(".from"));
    let to_label = join(&label, &chars_of(".to"));
    check_path_prefix(from, false, &from_label, errors);
    check_path_prefix(to, allow_root, &to_label, errors);
    let f = chars_of(from);
    let t = chars_of(to);
    if f.len() > 0 && crate::text::chars_eq(&f, &t) {
        let m = join(&join(&from_label, &chars_of(" must not equal ")), &to_label);
        push_msg(errors, m);
        proof {
            assert(m@ =~= label@ + ".from"@ + " must not equal "@ + (label@ + ".to"@));
        }
    }
    assert(messages(errors@) =~= start + from_to_errors(index as nat, transform@, from@, to@, allow_root));
}

fn check_map<V>(m: &BTreeMap<String, V>, label: &[char], errors: &mut Vec<ValidationError>)
    ensures
        messages(final(errors)@) == messages(old(errors)@) + map_errors(*m, label@),
{
    if m.is_empty() {
        push_msg(errors, join(label, &chars_of(" must not be empty")));
    }
    assert(messages(errors@) =~= messages(old(errors)@) + map_errors(*m, label@));
}


fn validate_filter(index: usize, args: &FilterArgs, errors: &mut Vec<ValidationError>)
    ensures
        messages(final(errors)@) == messages(old(errors)@) + (list_errors(texts(args.paths@), node_label(index as nat) + "filter.paths"@)),
{
    let ghost start = messages(errors@);
    let l = node_label_exec(index);
    check_non_empty_list(&args.paths, &join(&l, &chars_of("filter.paths")), errors);
    assert(messages(errors@) =~= start + (list_errors(texts(args.paths@), node_label(index as nat) + "filter.paths"@)));
}

fn validate_delete(index: usize, args: &DeleteArgs, errors: &mut Vec<ValidationError>)
    ensures
        messages(final(errors)@) == messages(old(errors)@) + (list_errors(texts(args.paths@), node_label(index as nat) + "delete.paths"@)),
{
    let ghost start = messages(errors@);
    let l = node_label_exec(index);
    check_non_empty_list(&args.paths, &join(&l, &chars_of("delete.paths")), errors);
    assert(messages(errors@) =~= start + (list_errors(texts(args.paths@), node_label(index as nat) + "delete.paths"@)));
}

fn validate_replace(index: usize, args: &ReplaceArgs, errors: &mut Vec<ValidationError>)
    ensures
        messages(final(errors)@) == messages(old(errors)@) + (value_errors(args.file@, node_label(index as nat) + "replace.file"@) + map_errors(args.replacements, node_label(index as nat) + "replace.replacements"@)),
{
    let ghost start = messages(errors@);
    let l = node_label_exec(index);
    check_non_empty(args.file.as_str(), &join(&l, &chars_of("replace.file")), errors);
    check_map(&args.replacements, &join(&l, &chars_of("replace.replacements")), errors);
    assert(messages(errors@) =~= start + (value_errors(args.file@, node_label(index as nat) + "replace.file"@) + map_errors(args.replacements, node_label(index as nat) + "replace.replacements"@)));
}

fn validate_regex_replace(index: usize, args: &RegexReplaceArgs, errors: &mut Vec<ValidationError>)
    ensures
        messages(final(errors)@) == messages(old(errors)@) + (list_errors(texts(args.files@), node_label(index as nat) + "regex_replace.files"@) + value_errors(args.pattern@, node_label(index as nat) + "regex_replace.pattern"@)),
{
    let ghost start = messages(errors@);
    let l = node_label_exec(index);
    check_non_empty_list(&args.files, &join(&l, &chars_of("regex_replace.files")), errors);
    check_non_empty(args.pattern.as_str(), &join(&l, &chars_of("regex_replace.pattern")), errors);
    assert(messages(errors@) =~= start + (list_errors(texts(args.files@), node_label(index as nat) + "regex_replace.files"@) + value_errors(args.pattern@, node_label(index as nat) + "regex_replace.pattern"@)));
}

fn validate_strip_prefix(index: usize, args: &StripPrefixArgs, errors: &mut Vec<ValidationError>)
    ensures
        messages(final(errors)@) == messages(old(errors)@) + (value_errors(args.path@, node_label(index as nat) + "strip_prefix.path"@)),
{
    let ghost start = messages(errors@);
    let l = node_label_exec(index);
    check_non_empty(args.path.as_str(), &join(&l, &chars_of("strip_prefix.path")), errors);
    assert(messages(errors@) =~= start + (value_errors(args.path@, node_label(index as nat) + "strip_prefix.path"@)));
}

fn validate_prepend(index: usize, args: &PrependArgs, errors: &mut Vec<ValidationError>)
    ensures
        messages(final(errors)@) == messages(old(errors)@) + (list_errors(texts(args.files@), node_label(index as nat) + "prepend.files"@) + value_errors(args.content@, node_label(index as nat) + "prepend.content"@)),
{
    let ghost start = messages(errors@);
    let l = node_label_exec(index);
    check_non_empty_list(&args.files, &join(&l, &chars_of("prepend.files")), errors);
    check_non_empty(args.content.as_str(), &join(&l, &chars_of("prepend.content")), errors);
    assert(messages(errors@) =~= start + (list_errors(texts(args.files@), node_label(index as nat) + "prepend.files"@) + value_errors(args.content@, node_label(index as nat) + "prepend.content"@)));
}

fn validate_append(index: usize, args: &AppendArgs, errors: &mut Vec<ValidationError>)
    ensures
        messages(final(errors)@) == messages(old(errors)@) + (list_errors(texts(args.files@), node_label(index as nat) + "append.files"@) + value_errors(args.content@, node_label(index as nat) + "append.content"@)),
{
    let ghost start = messages(errors@);
    let l = node_label_exec(index);
    check_non_empty_list(&args.files, &join(&l, &chars_of("append.files")), errors);
    check_non_empty(args.content.as_str(), &join(&l, &chars_of("append.content")), errors);
    assert(messages(errors@) =~= start + (list_errors(texts(args.files@), node_label(index as nat) + "append.files"@) + value_errors(args.content@, node_label(index as nat) + "append.content"@)));
}

fn validate_patch(index: usize, args: &PatchArgs, errors: &mut Vec<ValidationError>)
    ensures
        messages(final(errors)@) == messages(old(errors)@) + (value_errors(args.file@, node_label(index as nat) + "patch.file"@) + value_errors(args.patch@, node_label(index as nat) + "patch.patch"@)),
{
    let ghost start = messages(errors@);
    let l = node_label_exec(index);
    check_non_empty(args.file.as_str(), &join(&l, &chars_of("patch.file")), errors);
    check_non_empty(args.patch.as_str(), &join(&l, &chars_of("patch.patch")), errors);
    assert(messages(errors@) =~= start + (value_errors(args.file@, node_label(index as nat) + "patch.file"@) + value_errors(args.patch@, node_label(index as nat) + "patch.patch"@)));
}

fn validate_metadata(index: usize, args: &MetadataArgs, errors: &mut Vec<ValidationError>)
    ensures
        messages(final(errors)@) == messages(old(errors)@) + (value_errors(args.key@, node_label(index as nat) + "metadata.key"@)),
{
    let ghost start = messages(errors@);
    let l = node_label_exec(index);
    check_non_empty(args.key.as_str(), &join(&l, &chars_of("metadata.key")), errors);
    assert(messages(errors@) =~= start + (value_errors(args.key@, node_label(index as nat) + "metadata.key"@)));
}

fn validate_commit_message(index: usize, args: &CommitMessageArgs, errors: &mut Vec<ValidationError>)
    ensures
        messages(final(errors)@) == messages(old(errors)@) + (value_errors(args.message@, node_label(index as nat) + "commit_message.message"@)),
{
    let ghost start = messages(errors@);
    let l = node_label_exec(index);
    check_non_empty(args.message.as_str(), &join(&l, &chars_of("commit_message.message")), errors);
    assert(messages(errors@) =~= start + (value_errors(args.message@, node_label(index as nat) + "commit_message.message"@)));
}

fn validate_author_mapping(index: usize, args: &AuthorMappingArgs, errors: &mut Vec<ValidationError>)
    ensures
        messages(final(errors)@) == messages(old(errors)@) + (map_errors(args.mapping, node_label(index as nat) + "author_mapping.mapping"@)),
{
    let ghost start = messages(errors@);
    let l = node_label_exec(index);
    check_map(&args.mapping, &join(&l, &chars_of("author_mapping.mapping")), errors);
    assert(messages(errors@) =~= start + (map_errors(args.mapping, node_label(index as nat) + "author_mapping.mapping"@)));
}

fn validate_custom(index: usize, args: &CustomArgs, errors: &mut Vec<ValidationError>)
    ensures
        messages(final(errors)@) == messages(old(errors)@) + (value_errors(args.name@, node_label(index as nat) + "custom.name"@) + value_errors(args.path@, node_label(index as nat) + "custom.path"@)),
{
    let ghost start = messages(errors@);
    let l = node_label_exec(index);
    check_non_empty(args.name.as_str(), &join(&l, &chars_of("custom.name")), errors);
    check_non_empty(args.path.as_str(), &join(&l, &chars_of("custom.path")), errors);
    assert(messages(errors@) =~= start + (value_errors(args.name@, node_label(index as nat) + "custom.name"@) + value_errors(args.path@, node_label(index as nat) + "custom.path"@)));
}

fn validate_dependency_rewrite(index: usize, args: &DependencyRewriteArgs, errors: &mut Vec<ValidationError>)
    ensures
        messages(final(errors)@) == messages(old(errors)@) + (if args.package_rename@.is_empty() && args.workspace_version is None { seq![node_label(index as nat) + "dependency_rewrite must set package_rename and/or workspace_version"@] } else { seq![] }),
{
    let ghost start = messages(errors@);
    let l = node_label_exec(index);
    if args.package_rename.is_empty() && args.workspace_version.is_none() {
        push_msg(errors, join(&l, &chars_of("dependency_rewrite must set package_rename and/or workspace_version")));
    }
    assert(messages(errors@) =~= start + (if args.package_rename@.is_empty() && args.workspace_version is None { seq![node_label(index as nat) + "dependency_rewrite must set package_rename and/or workspace_version"@] } else { seq![] }));
}

fn validate_import_rewrite(index: usize, args: &ImportRewriteArgs, errors: &mut Vec<ValidationError>)
    ensures
        messages(final(errors)@) == messages(old(errors)@) + (map_errors(args.renames, node_label(index as nat) + "import_rewrite.renames"@)),
{
    let ghost start = messages(errors@);
    let l = node_label_exec(index);
    check_map(&args.renames, &join(&l, &chars_of("import_rewrite.renames")), errors);
    assert(messages(errors@) =~= start + (map_errors(args.renames, node_label(index as nat) + "import_rewrite.renames"@)));
}

fn validate_transform(index: usize, node: &TransformNode, errors: &mut Vec<ValidationError>)
    ensures
        messages(final(errors)@) == messages(old(errors)@) + node_errors(index as nat, *node),
{
    let ghost start = messages(errors@);
    let count = node.kind_count();
    let kind = match node.kind() {
        Some(kind) => {
            if count == 1 {
                kind
            } else {
                let l = node_label_exec(index);
                let m = join(
                    &join(&l, &chars_of("must specify exactly one transformation, found ")),
                    &decimal_chars(count),
                );
                push_msg(errors, m);
                assert(messages(errors@) =~= start + node_errors(index as nat, *node));
                return;
            }
        },
        None => {
            let l = node_label_exec(index);
            push_msg(errors, join(&l, &chars_of("must specify exactly one transformation (e.g. `filter`)")));
            assert(messages(errors@) =~= start + node_errors(index as nat, *node));
            return;
        },
    };
    if let EngineSupport::NotYetImplemented(reason) = kind.engine_support() {
        let l = node_label_exec(index);
        let m = join(&join(&join(&join(&l, &chars_of("`")), &chars_of(kind.as_str())), &chars_of("` is not yet implemented (")), &chars_of(reason));
        push_msg(errors, join(&m, &chars_of(")")));
    }
    match kind {
        TransformKind::Filter => match &node.filter {
            Some(args) => validate_filter(index, args, errors),
            None => {},
        },
        TransformKind::Delete => match &node.delete {
            Some(args) => validate_delete(index, args, errors),
            None => {},
        },
        TransformKind::Copy => match &node.copy {
            Some(args) => validate_from_to(index, "copy", args.from.as_str(), args.to.as_str(), false, errors),
            None => {},
        },
        TransformKind::Move => match &node.move_ {
            Some(args) => validate_from_to(index, "move", args.from.as_str(), args.to.as_str(), true, errors),
            None => {},
        },
        TransformKind::Rename => match &node.rename {
            Some(args) => validate_from_to(index, "rename", args.from.as_str(), args.to.as_str(), false, errors),
            None => {},
        },
        TransformKind::Replace => match &node.replace {
            Some(args) => validate_replace(index, args, errors),
            None => {},
        },
        TransformKind::RegexReplace => match &node.regex_replace {
            Some(args) => validate_regex_replace(index, args, errors),
            None => {},
        },
        TransformKind::StripPrefix => match &node.strip_prefix {
            Some(args) => validate_strip_prefix(index, args, errors),
            None => {},
        },
        TransformKind::Prepend => match &node.prepend {
            Some(args) => validate_prepend(index, args, errors),
            None => {},
        },
        TransformKind::Append => match &node.append {
            Some(args) => validate_append(index, args, errors),
            None => {},
        },
        TransformKind::Patch => match &node.patch {
            Some(args) => validate_patch(index, args, errors),
            None => {},
        },
        TransformKind::Metadata => match &node.metadata {
            Some(args) => validate_metadata(index, args, errors),
            None => {},
        },
        TransformKind::CommitMessage => match &node.commit_message {
            Some(args) => validate_commit_message(index, args, errors),
            None => {},
        },
        TransformKind::AuthorMapping => match &node.author_mapping {
            Some(args) => validate_author_mapping(index, args, errors),
            None => {},
        },
        TransformKind::DependencyRewrite => match &node.dependency_rewrite {
            Some(args) => validate_dependency_rewrite(index, args, errors),
            None => {},
        },
        TransformKind::ImportRewrite => match &node.import_rewrite {
            Some(args) => validate_import_rewrite(index, args, errors),
            None => {},
        },
        TransformKind::Custom => match &node.custom {
            Some(args) => validate_custom(index, args, errors),
            None => {},
        },
    }
}

fn validate_pipeline(config: &ConfigFile, errors: &mut Vec<ValidationError>)
    ensures
        messages(final(errors)@) == messages(old(errors)@) + pipeline_errors(*config),
{
    match &config.pipeline.name {
        Some(name) => check_non_empty(name.as_str(), &chars_of("pipeline.name"), errors),
        None => {
            assert(messages(errors@) =~= messages(old(errors)@) + pipeline_errors(*config));
        },
    }
}

fn check_location(url: &str, url_label: &str, name: &str, name_label: &str, errors: &mut Vec<ValidationError>)
    ensures
        messages(final(errors)@) == messages(old(errors)@) + location_errors(url@, url_label@, name@, name_label@),
{
    let ghost start = messages(errors@);
    let u = chars_of(url);
    let label = chars_of(url_label);
    if is_blank(&u) {
        push_msg(errors, join(&label, &chars_of(" must not be empty")));
    } else if !is_valid_git_url(url) {
        let m = join(&join(&join(&label, &chars_of(" `")), &u), &chars_of("` is not a recognized git URL (local path, SSH, or HTTPS)"));
        push_msg(errors, m);
    }
    let ghost mid = messages(errors@);
    check_non_empty(name, &chars_of(name_label), errors);
    assert(messages(errors@) =~= start + location_errors(url@, url_label@, name@, name_label@));
}

fn validate_source(source: &Source, errors: &mut Vec<ValidationError>)
    ensures
        messages(final(errors)@) == messages(old(errors)@) + source_errors(*source),
{
    match source {
        Source::Git { url, ref_name } => check_location(url.as_str(), "source.url", ref_name.as_str(), "source.ref", errors),
    }
}

fn validate_destination(destination: &Destination, errors: &mut Vec<ValidationError>)
    ensures
        messages(final(errors)@) == messages(old(errors)@) + destination_errors(*destination),
{
    match destination {
        Destination::Git { url, branch } => check_location(url.as_str(), "destination.url", branch.as_str(), "destination.branch", errors),
    }
}

fn validate_distinct_repos(config: &ConfigFile, errors: &mut Vec<ValidationError>)
    ensures
        messages(final(errors)@) == messages(old(errors)@) + distinct_errors(*config),
{
    let a = normalize_url(config.source.url());
    let b = normalize_url(config.destination.url());
    if a == b {
        let m = join(&join(&chars_of("destination must not point at the same repository as source (`"), &chars_of(config.source.url())), &chars_of("`)"));
        push_msg(errors, m);
    }
    assert(messages(errors@) =~= messages(old(errors)@) + distinct_errors(*config));
}

fn validate_policy(policy: &Policy, errors: &mut Vec<ValidationError>)
    ensures
        messages(final(errors)@) == messages(old(errors)@) + entry_errors(texts(policy.deny@), "policy.deny"@, policy.deny@.len() as int)
            + entry_errors(texts(policy.require_review@), "policy.require_review"@, policy.require_review@.len() as int),
{
    let ghost start = messages(errors@);
    check_list_entries(&policy.deny, &chars_of("policy.deny"), errors);
    check_list_entries(&policy.require_review, &chars_of("policy.require_review"), errors);
    assert(messages(errors@) =~= start + entry_errors(texts(policy.deny@), "policy.deny"@, policy.deny@.len() as int)
            + entry_errors(texts(policy.require_review@), "policy.require_review"@, policy.require_review@.len() as int));
}

/// Runs all semantic checks over a parsed configuration and returns every
/// problem found, in order; an empty list means the configuration is valid.
pub fn validate(config: &ConfigFile) -> (r: Vec<ValidationError>)
    ensures
        messages(r@) == config_errors(*config),
{
    let mut errors: Vec<ValidationError> = Vec::new();
    assert(messages(errors@) =~= Seq::<Seq<char>>::empty());
    validate_pipeline(config, &mut errors);
    validate_source(&config.source, &mut errors);
    validate_destination(&config.destination, &mut errors);
    validate_distinct_repos(config, &mut errors);
    let ghost before = messages(errors@);
    let mut i: usize = 0;
    while i < config.transform.len()
        invariant
            i <= config.transform@.len(),
            messages(errors@) == before + transforms_errors(config.transform@, i as int),
        decreases config.transform@.len() - i,
    {
        validate_transform(i, &config.transform[i], &mut errors);
        i = i + 1;
        assert(messages(errors@) =~= before + transforms_errors(config.transform@, i as int));
    }
    let ghost after_nodes = messages(errors@);
    match &config.policy {
        Some(policy) => validate_policy(policy, &mut errors),
        None => {},
    }
    assert(messages(errors@) =~= config_errors(*config));
    errors
}

impl ConfigFile {
    /// Runs semantic validation, returning all problems found.
    pub fn validate(&self) -> (r: Vec<ValidationError>)
        ensures
            messages(r@) == config_errors(*self),
    {
        validate(self)
    }
}

/// Node `i`'s errors at or before node `m` are among the node errors.
proof fn lemma_transforms_contains(nodes: Seq<TransformNode>, m: int, i: int, k: int)
    requires
        0 <= i < m <= nodes.len(),
        0 <= k < node_errors(i as nat, nodes[i]).len(),
    ensures
        transforms_errors(nodes, m).contains(node_errors(i as nat, nodes[i])[k]),
    decreases m,
{
    let x = node_errors(i as nat, nodes[i])[k];
    let pre = transforms_errors(nodes, m - 1);
    if i == m - 1 {
        assert(transforms_errors(nodes, m)[pre.len() + k] == x);
    } else {
        lemma_transforms_contains(nodes, m - 1, i, k);
        let t = choose|t: int| 0 <= t < pre.len() && pre[t] == x;
        assert(transforms_errors(nodes, m)[t] == x);
    }
}

/// Every error of a transform node is an error of the configuration.
proof fn lemma_node_error_reported(c: ConfigFile, i: int, k: int)
    requires
        0 <= i < c.transform@.len(),
        0 <= k < node_errors(i as nat, c.transform@[i]).len(),
    ensures
        config_errors(c).contains(node_errors(i as nat, c.transform@[i])[k]),
{
    let nodes = c.transform@;
    let x = node_errors(i as nat, nodes[i])[k];
    lemma_transforms_contains(nodes, nodes.len() as int, i, k);
    let tr = transforms_errors(nodes, nodes.len() as int);
    let t = choose|t: int| 0 <= t < tr.len() && tr[t] == x;
    let front = pipeline_errors(c) + source_errors(c.source) + destination_errors(c.destination) + distinct_errors(c);
    assert(config_errors(c) == front + tr + policy_errors(c));
    assert(config_errors(c)[front.len() + t] == x);
}

/// A copy, move or rename that would leave every path where it is is
/// refused: for a node with one transform whose `from` is not empty and
/// equals its `to`, the configuration's errors include
/// `<label>.from must not equal <label>.to`.
pub proof fn lemma_same_from_to_refused(c: ConfigFile, i: int)
    requires
        0 <= i < c.transform@.len(),
        c.transform@[i].spec_kind_count() == 1,
    ensures
        c.transform@[i].copy matches Some(a) && a.from@.len() > 0 && a.from@ == a.to@ ==> config_errors(c).contains(
            node_label(i as nat) + "copy"@ + ".from"@ + " must not equal "@ + node_label(i as nat) + "copy"@ + ".to"@,
        ),
        c.transform@[i].move_ matches Some(a) && a.from@.len() > 0 && a.from@ == a.to@ ==> config_errors(c).contains(
            node_label(i as nat) + "move"@ + ".from"@ + " must not equal "@ + node_label(i as nat) + "move"@ + ".to"@,
        ),
        c.transform@[i].rename matches Some(a) && a.from@.len() > 0 && a.from@ == a.to@ ==> config_errors(c).contains(
            node_label(i as nat) + "rename"@ + ".from"@ + " must not equal "@ + node_label(i as nat) + "rename"@ + ".to"@,
        ),
{
    let node = c.transform@[i];
    crate::config::schema::lemma_node_kind(node);
    if let Some(a) = node.copy {
        if a.from@.len() > 0 && a.from@ == a.to@ {
            assert(node.present()[2]);
            assert(node.spec_kind() == Some(TransformKind::Copy));
            let errs = node_errors(i as nat, node);
            let m = node_label(i as nat) + "copy"@ + ".from"@ + " must not equal "@ + node_label(i as nat) + "copy"@ + ".to"@;
            assert(errs[errs.len() - 1] =~= m);
            lemma_node_error_reported(c, i, errs.len() - 1);
        }
    }
    if let Some(a) = node.move_ {
        if a.from@.len() > 0 && a.from@ == a.to@ {
            assert(node.present()[3]);
            assert(node.spec_kind() == Some(TransformKind::Move));
            let errs = node_errors(i as nat, node);
            let m = node_label(i as nat) + "move"@ + ".from"@ + " must not equal "@ + node_label(i as nat) + "move"@ + ".to"@;
            assert(errs[errs.len() - 1] =~= m);
            lemma_node_error_reported(c, i, errs.len() - 1);
        }
    }
    if let Some(a) = node.rename {
        if a.from@.len() > 0 && a.from@ == a.to@ {
            assert(node.present()[4]);
            assert(node.spec_kind() == Some(TransformKind::Rename));
            let errs = node_errors(i as nat, node);
            let m = node_label(i as nat) + "rename"@ + ".from"@ + " must not equal "@ + node_label(i as nat) + "rename"@ + ".to"@;
            assert(errs[errs.len() - 1] =~= m);
            lemma_node_error_reported(c, i, errs.len() - 1);
        }
    }
}

} // verus!
