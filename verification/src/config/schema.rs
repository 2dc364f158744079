//! The pipeline configuration schema.
use vstd::prelude::*;

use std::collections::BTreeMap;

verus! {

/// A YAML value carried through unread (the arguments of a plugin).
#[verifier::external_type_specification]
#[verifier::external_body]
pub struct ExYamlValue(serde_yaml::Value);

/// Top-level `pipeline` section describing the migration itself.
#[derive(Debug, Clone, Default, PartialEq, Eq)]
pub struct PipelineInfo {
    /// Human-readable name of the pipeline.
    pub name: Option<String>,
}

/// Where a pipeline reads from.
#[derive(Debug, Clone, PartialEq, Eq)]
pub enum Source {
    /// A Git repository (local, SSH, or HTTPS).
    Git {
        /// Repository location: local path, `git@host:path`, or a URL.
        url: String,
        /// Ref (branch, tag, or commit) to check out.
        ref_name: String,
    },
}

/// Where a pipeline writes to.
#[derive(Debug, Clone, PartialEq, Eq)]
pub enum Destination {
    /// A Git repository (local, SSH, or HTTPS).
    Git {
        /// Repository location: local path, `git@host:path`, or a URL.
        url: String,
        /// Branch to push the result to.
        branch: String,
    },
}

impl Source {
    /// The repository URL of the source.
    pub open spec fn spec_url(&self) -> Seq<char> {
        match self {
            Source::Git { url, .. } => url@,
        }
    }

    /// Returns the provider type name (`"git"`).
    pub fn provider_name(&self) -> (r: &'static str)
        ensures
            r@ == "git"@,
    {
        match self {
            Source::Git { .. } => "git",
        }
    }

    /// Returns the repository URL.
    pub fn url(&self) -> (r: &str)
        ensures
            r@ == self.spec_url(),
    {
        match self {
            Source::Git { url, .. } => url.as_str(),
        }
    }
}

impl Destination {
    /// The repository URL of the destination.
    pub open spec fn spec_url(&self) -> Seq<char> {
        match self {
            Destination::Git { url, .. } => url@,
        }
    }

    /// Returns the provider type name (`"git"`).
    pub fn provider_name(&self) -> (r: &'static str)
        ensures
            r@ == "git"@,
    {
        match self {
            Destination::Git { .. } => "git",
        }
    }

    /// Returns the repository URL.
    pub fn url(&self) -> (r: &str)
        ensures
            r@ == self.spec_url(),
    {
        match self {
            Destination::Git { url, .. } => url.as_str(),
        }
    }
}

/// Safety policy applied before a pipeline pushes to its destination.
#[derive(Debug, Clone, Default, PartialEq, Eq)]
pub struct Policy {
    /// Paths (globs) that must never reach the destination.
    pub deny: Vec<String>,
    /// Paths (globs) that require review before pushing.
    pub require_review: Vec<String>,
    /// Maximum number of files a single run may delete.
    pub max_deleted_files: Option<u64>,
}

/// All transformation kinds known to the config schema.
#[derive(Debug, Clone, Copy, PartialEq, Eq, Structural)]
pub enum TransformKind {
    Filter,
    Delete,
    Copy,
    Move,
    Rename,
    Replace,
    RegexReplace,
    StripPrefix,
    Prepend,
    Append,
    Patch,
    Metadata,
    CommitMessage,
    AuthorMapping,
    DependencyRewrite,
    ImportRewrite,
    Custom,
}

/// Whether the engine can execute a transform kind.
#[derive(Debug, Clone, Copy, PartialEq, Eq)]
pub enum EngineSupport {
    /// The engine can execute this transform.
    Supported,
    /// The transform is recognized but not yet executable.
    NotYetImplemented(&'static str),
}

/// The YAML key that spells each transform kind.
pub open spec fn kind_name(k: TransformKind) -> Seq<char> {
    match k {
        TransformKind::Filter => "filter"@,
        TransformKind::Delete => "delete"@,
        TransformKind::Copy => "copy"@,
        TransformKind::Move => "move"@,
        TransformKind::Rename => "rename"@,
        TransformKind::Replace => "replace"@,
        TransformKind::RegexReplace => "regex_replace"@,
        TransformKind::StripPrefix => "strip_prefix"@,
        TransformKind::Prepend => "prepend"@,
        TransformKind::Append => "append"@,
        TransformKind::Patch => "patch"@,
        TransformKind::Metadata => "metadata"@,
        TransformKind::CommitMessage => "commit_message"@,
        TransformKind::AuthorMapping => "author_mapping"@,
        TransformKind::DependencyRewrite => "dependency_rewrite"@,
        TransformKind::ImportRewrite => "import_rewrite"@,
        TransformKind::Custom => "custom"@,
    }
}

impl TransformKind {
    /// Returns the YAML key used to spell this transform.
    pub fn as_str(self) -> (r: &'static str)
        ensures
            r@ == kind_name(self),
    {
        match self {
            TransformKind::Filter => "filter",
            TransformKind::Delete => "delete",
            TransformKind::Copy => "copy",
            TransformKind::Move => "move",
            TransformKind::Rename => "rename",
            TransformKind::Replace => "replace",
            TransformKind::RegexReplace => "regex_replace",
            TransformKind::StripPrefix => "strip_prefix",
            TransformKind::Prepend => "prepend",
            TransformKind::Append => "append",
            TransformKind::Patch => "patch",
            TransformKind::Metadata => "metadata",
            TransformKind::CommitMessage => "commit_message",
            TransformKind::AuthorMapping => "author_mapping",
            TransformKind::DependencyRewrite => "dependency_rewrite",
            TransformKind::ImportRewrite => "import_rewrite",
            TransformKind::Custom => "custom",
        }
    }

    /// Whether the transformation engine can execute this kind: every kind
    /// the schema knows is executable.
    pub fn engine_support(self) -> (r: EngineSupport)
        ensures
            r == EngineSupport::Supported,
    {
        match self {
            TransformKind::Filter | TransformKind::Delete | TransformKind::Copy
            | TransformKind::Move | TransformKind::Rename | TransformKind::Replace
            | TransformKind::StripPrefix | TransformKind::DependencyRewrite
            | TransformKind::ImportRewrite | TransformKind::AuthorMapping
            | TransformKind::CommitMessage | TransformKind::Custom => EngineSupport::Supported,
            TransformKind::RegexReplace | TransformKind::Prepend | TransformKind::Append
            | TransformKind::Patch | TransformKind::Metadata => EngineSupport::Supported,
        }
    }
}

/// Arguments of a `filter` node.
#[derive(Debug, Clone, PartialEq, Eq)]
pub struct FilterArgs {
    /// Globs of the paths to keep.
    pub paths: Vec<String>,
}

/// Arguments of a `delete` node.
#[derive(Debug, Clone, PartialEq, Eq)]
pub struct DeleteArgs {
    /// Globs of the paths to delete.
    pub paths: Vec<String>,
}

/// Arguments of a `copy` node.
#[derive(Debug, Clone, PartialEq, Eq)]
pub struct CopyArgs {
    /// Source path prefix.
    pub from: String,
    /// Destination path prefix.
    pub to: String,
}

/// Arguments of a `move` node.
#[derive(Debug, Clone, PartialEq, Eq)]
pub struct MoveArgs {
    /// Source path prefix.
    pub from: String,
    /// Destination path prefix (`.` for the root).
    pub to: String,
}

/// Arguments of a `rename` node.
#[derive(Debug, Clone, PartialEq, Eq)]
pub struct RenameArgs {
    /// Source path prefix.
    pub from: String,
    /// Destination path prefix.
    pub to: String,
}

/// Arguments of a `replace` node.
#[derive(Debug, Clone, PartialEq, Eq)]
pub struct ReplaceArgs {
    /// The file to rewrite.
    pub file: String,
    /// Substring replacements.
    pub replacements: BTreeMap<String, String>,
}

/// Arguments of a `regex_replace` node.
#[derive(Debug, Clone, PartialEq, Eq)]
pub struct RegexReplaceArgs {
    /// Globs of the files to rewrite.
    pub files: Vec<String>,
    /// The regular expression.
    pub pattern: String,
    /// The replacement text.
    pub replacement: String,
}

/// Arguments of a `strip_prefix` node.
#[derive(Debug, Clone, PartialEq, Eq)]
pub struct StripPrefixArgs {
    /// The prefix to strip.
    pub path: String,
}

/// Arguments of a `prepend` node.
#[derive(Debug, Clone, PartialEq, Eq)]
pub struct PrependArgs {
    /// Globs of the files to change.
    pub files: Vec<String>,
    /// The text to prepend.
    pub content: String,
}

/// Arguments of an `append` node.
#[derive(Debug, Clone, PartialEq, Eq)]
pub struct AppendArgs {
    /// Globs of the files to change.
    pub files: Vec<String>,
    /// The text to append.
    pub content: String,
}

/// Arguments of a `patch` node.
#[derive(Debug, Clone, PartialEq, Eq)]
pub struct PatchArgs {
    /// The file to patch.
    pub file: String,
    /// The patch text.
    pub patch: String,
}

/// Arguments of a `metadata` node.
#[derive(Debug, Clone, PartialEq, Eq)]
pub struct MetadataArgs {
    /// Metadata key.
    pub key: String,
    /// Metadata value.
    pub value: String,
}

/// Arguments of a `commit_message` node.
#[derive(Debug, Clone, PartialEq, Eq)]
pub struct CommitMessageArgs {
    /// The message (a prefix for replayed commits).
    pub message: String,
}

/// Arguments of an `author_mapping` node.
#[derive(Debug, Clone, PartialEq, Eq)]
pub struct AuthorMappingArgs {
    /// Source email to destination email.
    pub mapping: BTreeMap<String, String>,
}

/// Arguments of a `dependency_rewrite` node.
#[derive(Debug, Clone, PartialEq, Eq)]
pub struct DependencyRewriteArgs {
    /// Package renames.
    pub package_rename: BTreeMap<String, String>,
    /// Version to pin workspace dependencies to.
    pub workspace_version: Option<String>,
}

/// Arguments of an `import_rewrite` node.
#[derive(Debug, Clone, PartialEq, Eq)]
pub struct ImportRewriteArgs {
    /// Module specifier renames.
    pub renames: BTreeMap<String, String>,
}

/// Arguments of a `custom` node.
#[derive(Debug, Clone, PartialEq, Eq)]
pub struct CustomArgs {
    /// Plugin name.
    pub name: String,
    /// Plugin path.
    pub path: String,
    /// Plugin arguments.
    pub args: BTreeMap<String, serde_yaml::Value>,
}

/// A single step in a pipeline. Exactly one transform must be set;
/// validation enforces the one-of invariant.
#[derive(Debug, Clone, Default, PartialEq, Eq)]
pub struct TransformNode {
    pub filter: Option<FilterArgs>,
    pub delete: Option<DeleteArgs>,
    pub copy: Option<CopyArgs>,
    pub move_: Option<MoveArgs>,
    pub rename: Option<RenameArgs>,
    pub replace: Option<ReplaceArgs>,
    pub regex_replace: Option<RegexReplaceArgs>,
    pub strip_prefix: Option<StripPrefixArgs>,
    pub prepend: Option<PrependArgs>,
    pub append: Option<AppendArgs>,
    pub patch: Option<PatchArgs>,
    pub metadata: Option<MetadataArgs>,
    pub commit_message: Option<CommitMessageArgs>,
    pub author_mapping: Option<AuthorMappingArgs>,
    pub dependency_rewrite: Option<DependencyRewriteArgs>,
    pub import_rewrite: Option<ImportRewriteArgs>,
    pub custom: Option<CustomArgs>,
}

impl TransformNode {
    /// The kind of the first transform set on the node, in declaration
    /// order, if any is set.
    pub open spec fn spec_kind(&self) -> Option<TransformKind> {
        if self.filter is Some {
            Some(TransformKind::Filter)
        } else if self.delete is Some {
            Some(TransformKind::Delete)
        } else if self.copy is Some {
            Some(TransformKind::Copy)
        } else if self.move_ is Some {
            Some(TransformKind::Move)
        } else if self.rename is Some {
            Some(TransformKind::Rename)
        } else if self.replace is Some {
            Some(TransformKind::Replace)
        } else if self.regex_replace is Some {
            Some(TransformKind::RegexReplace)
        } else if self.strip_prefix is Some {
            Some(TransformKind::StripPrefix)
        } else if self.prepend is Some {
            Some(TransformKind::Prepend)
        } else if self.append is Some {
            Some(TransformKind::Append)
        } else if self.patch is Some {
            Some(TransformKind::Patch)
        } else if self.metadata is Some {
            Some(TransformKind::Metadata)
        } else if self.commit_message is Some {
            Some(TransformKind::CommitMessage)
        } else if self.author_mapping is Some {
            Some(TransformKind::AuthorMapping)
        } else if self.dependency_rewrite is Some {
            Some(TransformKind::DependencyRewrite)
        } else if self.import_rewrite is Some {
            Some(TransformKind::ImportRewrite)
        } else if self.custom is Some {
            Some(TransformKind::Custom)
        } else {
            None
        }
    }

    /// Which transforms are set, in declaration order.
    pub open spec fn present(&self) -> Seq<bool> {
        seq![self.filter is Some, self.delete is Some, self.copy is Some, self.move_ is Some, self.rename is Some, self.replace is Some, self.regex_replace is Some, self.strip_prefix is Some, self.prepend is Some, self.append is Some, self.patch is Some, self.metadata is Some, self.commit_message is Some, self.author_mapping is Some, self.dependency_rewrite is Some, self.import_rewrite is Some, self.custom is Some]
    }

    /// The number of transforms set on the node.
    pub open spec fn spec_kind_count(&self) -> nat {
        count_true(self.present(), 17)
    }

    /// Returns the kind of this node: the first transform that is set.
    pub fn kind(&self) -> (r: Option<TransformKind>)
        ensures
            r == self.spec_kind(),
    {
        if self.filter.is_some() {
            Some(TransformKind::Filter)
        } else if self.delete.is_some() {
            Some(TransformKind::Delete)
        } else if self.copy.is_some() {
            Some(TransformKind::Copy)
        } else if self.move_.is_some() {
            Some(TransformKind::Move)
        } else if self.rename.is_some() {
            Some(TransformKind::Rename)
        } else if self.replace.is_some() {
            Some(TransformKind::Replace)
        } else if self.regex_replace.is_some() {
            Some(TransformKind::RegexReplace)
        } else if self.strip_prefix.is_some() {
            Some(TransformKind::StripPrefix)
        } else if self.prepend.is_some() {
            Some(TransformKind::Prepend)
        } else if self.append.is_some() {
            Some(TransformKind::Append)
        } else if self.patch.is_some() {
            Some(TransformKind::Patch)
        } else if self.metadata.is_some() {
            Some(TransformKind::Metadata)
        } else if self.commit_message.is_some() {
            Some(TransformKind::CommitMessage)
        } else if self.author_mapping.is_some() {
            Some(TransformKind::AuthorMapping)
        } else if self.dependency_rewrite.is_some() {
            Some(TransformKind::DependencyRewrite)
        } else if self.import_rewrite.is_some() {
            Some(TransformKind::ImportRewrite)
        } else if self.custom.is_some() {
            Some(TransformKind::Custom)
        } else {
            None
        }
    }

    /// Returns the number of transforms set on this node.
    #[verifier::rlimit(100)]
    pub fn kind_count(&self) -> (r: usize)
        ensures
            r == self.spec_kind_count(),
    {
        let flags = vec![self.filter.is_some(), self.delete.is_some(), self.copy.is_some(), self.move_.is_some(), self.rename.is_some(), self.replace.is_some(), self.regex_replace.is_some(), self.strip_prefix.is_some(), self.prepend.is_some(), self.append.is_some(), self.patch.is_some(), self.metadata.is_some(), self.commit_message.is_some(), self.author_mapping.is_some(), self.dependency_rewrite.is_some(), self.import_rewrite.is_some(), self.custom.is_some()];
        let ghost want = self.present();
        assert(flags@ == want);
        let mut count: usize = 0;
        let mut i: usize = 0;
        while i < flags.len()
            invariant
                flags@ == want,
                want.len() == 17,
                i <= 17,
                count <= i,
                count == count_true(want, i as int),
            decreases 17 - i,
        {
            if flags[i] {
                count = count + 1;
            }
            i = i + 1;
        }
        count
    }
}

/// Number of `true` among the first `m` of `s`.
pub open spec fn count_true(s: Seq<bool>, m: int) -> nat
    decreases m,
{
    if m <= 0 {
        0
    } else {
        count_true(s, m - 1) + (if s[m - 1] { 1nat } else { 0nat })
    }
}

/// The root of a pipeline configuration file.
#[derive(Debug, Clone, PartialEq, Eq)]
pub struct ConfigFile {
    /// Pipeline metadata.
    pub pipeline: PipelineInfo,
    /// Where to read the repository from.
    pub source: Source,
    /// Ordered transformations, applied left to right.
    pub transform: Vec<TransformNode>,
    /// Where to write the transformed repository.
    pub destination: Destination,
    /// Optional safety policy applied before pushing.
    pub policy: Option<Policy>,
}

/// The kind of the transform field at index `i` of [`TransformNode::present`].
pub open spec fn kind_at(i: int) -> TransformKind {
    if i == 0 {
        TransformKind::Filter
    } else if i == 1 {
        TransformKind::Delete
    } else if i == 2 {
        TransformKind::Copy
    } else if i == 3 {
        TransformKind::Move
    } else if i == 4 {
        TransformKind::Rename
    } else if i == 5 {
        TransformKind::Replace
    } else if i == 6 {
        TransformKind::RegexReplace
    } else if i == 7 {
        TransformKind::StripPrefix
    } else if i == 8 {
        TransformKind::Prepend
    } else if i == 9 {
        TransformKind::Append
    } else if i == 10 {
        TransformKind::Patch
    } else if i == 11 {
        TransformKind::Metadata
    } else if i == 12 {
        TransformKind::CommitMessage
    } else if i == 13 {
        TransformKind::AuthorMapping
    } else if i == 14 {
        TransformKind::DependencyRewrite
    } else if i == 15 {
        TransformKind::ImportRewrite
    } else {
        TransformKind::Custom
    }
}

/// No `true` among the first `m` entries exactly when the count is zero;
/// with a count of one, the `true` entry is the only one.
proof fn lemma_count_true(s: Seq<bool>, m: int)
    requires
        0 <= m <= s.len(),
    ensures
        count_true(s, m) == 0 <==> forall|k: int| 0 <= k < m ==> !s[k],
        count_true(s, m) == 1 ==> forall|i: int, k: int| 0 <= i < m && 0 <= k < m && s[i] && s[k] ==> i == k,
    decreases m,
{
    if m > 0 {
        lemma_count_true(s, m - 1);
        if count_true(s, m) == 1 && s[m - 1] {
            assert(count_true(s, m - 1) == 0);
        }
    }
}

/// A node names no transform exactly when none of its fields is set; a node
/// with exactly one field set is of that field's kind.
pub proof fn lemma_node_kind(n: TransformNode)
    ensures
        n.spec_kind() is None <==> n.spec_kind_count() == 0,
        forall|i: int|
            0 <= i < 17 && n.spec_kind_count() == 1 && #[trigger] n.present()[i] ==> n.spec_kind() == Some(kind_at(i)),
{
    let s = n.present();
    assert(s.len() == 17);
    lemma_count_true(s, 17);
    assert(s[0] == (n.filter is Some));
    assert(s[1] == (n.delete is Some));
    assert(s[2] == (n.copy is Some));
    assert(s[3] == (n.move_ is Some));
    assert(s[4] == (n.rename is Some));
    assert(s[5] == (n.replace is Some));
    assert(s[6] == (n.regex_replace is Some));
    assert(s[7] == (n.strip_prefix is Some));
    assert(s[8] == (n.prepend is Some));
    assert(s[9] == (n.append is Some));
    assert(s[10] == (n.patch is Some));
    assert(s[11] == (n.metadata is Some));
    assert(s[12] == (n.commit_message is Some));
    assert(s[13] == (n.author_mapping is Some));
    assert(s[14] == (n.dependency_rewrite is Some));
    assert(s[15] == (n.import_rewrite is Some));
    assert(s[16] == (n.custom is Some));
}

} // verus!
