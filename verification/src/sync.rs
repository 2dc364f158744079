//! The decisions of a sync run: whether the transformed output changes the
//! destination, and how the mirror commit is marked.
use vstd::prelude::*;

use crate::diff::{diff, is_diff_of, lemma_diff_of_identical_is_empty, SnapshotDiff};
use crate::git::CommitSpec;
use crate::marker::{mark_generated, marked};
use crate::model::commit::{CommitId, Signature};
use crate::model::snapshot::RepositorySnapshot;

verus! {

/// What a planned sync run would do to the destination.
#[derive(Debug)]
pub struct SyncPlan {
    /// Whether the destination would change (a commit would be written).
    pub changed: bool,
    /// The diff from the destination's current tree to the output.
    pub diff: SnapshotDiff,
}

/// No file is added, modified, removed or renamed.
pub open spec fn no_changes(d: SnapshotDiff) -> bool {
    d.added@.len() == 0 && d.modified@.len() == 0 && d.removed@.len() == 0 && d.renamed@.len() == 0
}

/// Plans a sync run: diffs the destination's current tree against the
/// transformed output. An output identical to the destination changes
/// nothing, so the run makes no commit.
pub fn plan_outcome(dest: &RepositorySnapshot, output: &RepositorySnapshot) -> (r: SyncPlan)
    ensures
        is_diff_of(r.diff, dest.entries(), output.entries()),
        r.changed == !no_changes(r.diff),
        dest.entries() == output.entries() ==> !r.changed,
{
    let d = diff(dest, output);
    let changed = !d.is_empty();
    let files = dest.iter();
    proof {
        if dest.entries() == output.entries() {
            lemma_diff_of_identical_is_empty(dest.entries(), d);
        }
    }
    SyncPlan { changed, diff: d }
}

fn copy_signature(s: &Option<Signature>) -> (r: Option<Signature>)
    ensures
        match (r, *s) {
            (Some(a), Some(b)) => a.name@ == b.name@ && a.email@ == b.email@ && a.time == b.time
                && a.offset_minutes == b.offset_minutes,
            (None, None) => true,
            _ => false,
        },
{
    match s {
        Some(x) => Some(x.duplicate()),
        None => None,
    }
}

/// The commit a sync run writes: `commit` with the generated-commit marker
/// naming the source head appended to its message (unchanged when the
/// source has no commits), so that a reverse sync recognizes it.
pub fn mirror_commit_spec(commit: &CommitSpec, source_head: Option<&CommitId>) -> (r: CommitSpec)
    ensures
        r.message@ == match source_head {
            Some(h) => marked(commit.message@, h@),
            None => commit.message@,
        },
        match (r.author, commit.author) {
            (Some(a), Some(b)) => a.name@ == b.name@ && a.email@ == b.email@ && a.time == b.time && a.offset_minutes == b.offset_minutes,
            (None, None) => true,
            _ => false,
        },
        match (r.committer, commit.committer) {
            (Some(a), Some(b)) => a.name@ == b.name@ && a.email@ == b.email@ && a.time == b.time && a.offset_minutes == b.offset_minutes,
            (None, None) => true,
            _ => false,
        },
{
    let message = match source_head {
        Some(h) => mark_generated(commit.message.as_str(), h),
        None => commit.message.clone(),
    };
    CommitSpec { message, author: copy_signature(&commit.author), committer: copy_signature(&commit.committer) }
}

} // verus!
