//! How a validated pipeline is run: which transform nodes form the snapshot
//! pipeline, and which rewrite commits during history replay.
use vstd::prelude::*;

use std::collections::BTreeMap;

use crate::config::schema::{ConfigFile, TransformKind, TransformNode};

verus! {

/// A kind applied while replaying history (to commits, not to trees).
pub open spec fn history_only(k: TransformKind) -> bool {
    k == TransformKind::AuthorMapping || k == TransformKind::CommitMessage
}

/// The snapshot transforms of `nodes`, as `(index, kind)` in order: every
/// node with a kind that is not history-only.
pub open spec fn snapshot_steps(nodes: Seq<TransformNode>) -> Seq<(usize, TransformKind)>
    decreases nodes.len(),
{
    if nodes.len() == 0 {
        seq![]
    } else {
        let rest = snapshot_steps(nodes.drop_last());
        match nodes.last().spec_kind() {
            Some(k) => if history_only(k) { rest } else { rest.push(((nodes.len() - 1) as usize, k)) },
            None => rest,
        }
    }
}

/// The nodes of the pipeline that run as snapshot transforms, with their
/// kinds, in pipeline order.
pub fn snapshot_transform_plan(config: &ConfigFile) -> (r: Vec<(usize, TransformKind)>)
    ensures
        r@ == snapshot_steps(config.transform@),
{
    let nodes = &config.transform;
    let mut out: Vec<(usize, TransformKind)> = Vec::new();
    let mut i: usize = 0;
    while i < nodes.len()
        invariant
            i <= nodes@.len(),
            out@ == snapshot_steps(nodes@.subrange(0, i as int)),
        decreases nodes@.len() - i,
    {
        let ghost pre = nodes@.subrange(0, i + 1);
        assert(pre.drop_last() =~= nodes@.subrange(0, i as int));
        assert(pre.last() == nodes@[i as int]);
        match nodes[i].kind() {
            Some(k) => {
                if !(k == TransformKind::AuthorMapping || k == TransformKind::CommitMessage) {
                    out.push((i, k));
                }
            },
            None => {},
        }
        i = i + 1;
    }
    assert(nodes@.subrange(0, nodes@.len() as int) =~= nodes@);
    out
}

/// The snapshot pipeline runs exactly the tree transforms, in node order:
/// every node whose kind is neither an author mapping nor a commit-message
/// rewrite (those rewrite commits during history replay) runs at its index
/// with its kind, and every step is such a node.
pub proof fn lemma_snapshot_steps_complete(nodes: Seq<TransformNode>)
    requires
        nodes.len() <= usize::MAX,
    ensures
        forall|i: int|
            #![trigger nodes[i].spec_kind()]
            0 <= i < nodes.len() && nodes[i].spec_kind() is Some && nodes[i].spec_kind()->0 != TransformKind::AuthorMapping
                && nodes[i].spec_kind()->0 != TransformKind::CommitMessage ==> exists|t: int|
                0 <= t < snapshot_steps(nodes).len() && #[trigger] snapshot_steps(nodes)[t] == (
                i as usize,
                nodes[i].spec_kind()->0,
            ),
        forall|t: int|
            0 <= t < snapshot_steps(nodes).len() ==> {
                let (i, k) = #[trigger] snapshot_steps(nodes)[t];
                &&& i < nodes.len()
                &&& nodes[i as int].spec_kind() == Some(k)
                &&& k != TransformKind::AuthorMapping
                &&& k != TransformKind::CommitMessage
            },
    decreases nodes.len(),
{
    if nodes.len() > 0 {
        let rest = nodes.drop_last();
        lemma_snapshot_steps_complete(rest);
        let n = nodes.len() - 1;
        let steps = snapshot_steps(nodes);
        let before = snapshot_steps(rest);
        assert forall|i: int|
            #![trigger nodes[i].spec_kind()]
            0 <= i < nodes.len() && nodes[i].spec_kind() is Some && nodes[i].spec_kind()->0 != TransformKind::AuthorMapping
                && nodes[i].spec_kind()->0 != TransformKind::CommitMessage implies exists|t: int|
                0 <= t < steps.len() && #[trigger] steps[t] == (i as usize, nodes[i].spec_kind()->0) by {
            if i < n {
                assert(rest[i] == nodes[i]);
                assert(rest[i].spec_kind() is Some);
                let t = choose|t: int| 0 <= t < before.len() && #[trigger] before[t] == (i as usize, rest[i].spec_kind()->0);
                assert(steps[t] == before[t]);
            } else {
                assert(steps[before.len() as int] == (i as usize, nodes[i].spec_kind()->0));
            }
        }
        assert forall|t: int| 0 <= t < steps.len() implies {
            let (i, k) = #[trigger] steps[t];
            &&& i < nodes.len()
            &&& nodes[i as int].spec_kind() == Some(k)
            &&& k != TransformKind::AuthorMapping
            &&& k != TransformKind::CommitMessage
        } by {
            if t < before.len() {
                assert(steps[t] == before[t]);
                assert(rest[before[t].0 as int] == nodes[before[t].0 as int]);
            }
        }
    }
}

/// The author mapping of the last node that sets one.
pub open spec fn last_author_mapping(nodes: Seq<TransformNode>) -> Option<Map<String, String>>
    decreases nodes.len(),
{
    if nodes.len() == 0 {
        None
    } else {
        match nodes.last().author_mapping {
            Some(a) => Some(a.mapping@),
            None => last_author_mapping(nodes.drop_last()),
        }
    }
}

/// The commit message prefix of the last node that sets one.
pub open spec fn last_commit_message(nodes: Seq<TransformNode>) -> Option<Seq<char>>
    decreases nodes.len(),
{
    if nodes.len() == 0 {
        None
    } else {
        match nodes.last().commit_message {
            Some(a) => Some(a.message@),
            None => last_commit_message(nodes.drop_last()),
        }
    }
}

/// The history-only transforms of the pipeline: the author mapping and the
/// commit message prefix, each taken from the last node that sets it.
pub fn history_transforms(config: &ConfigFile) -> (r: (Option<BTreeMap<String, String>>, Option<String>))
    ensures
        match (r.0, last_author_mapping(config.transform@)) {
            (Some(m), Some(want)) => m@ == want,
            (None, None) => true,
            _ => false,
        },
        match (r.1, last_commit_message(config.transform@)) {
            (Some(m), Some(want)) => m@ == want,
            (None, None) => true,
            _ => false,
        },
{
    let nodes = &config.transform;
    let mut author_map: Option<BTreeMap<String, String>> = None;
    let mut message_prefix: Option<String> = None;
    let mut i: usize = 0;
    while i < nodes.len()
        invariant
            i <= nodes@.len(),
            match (author_map, last_author_mapping(nodes@.subrange(0, i as int))) {
                (Some(m), Some(want)) => m@ == want,
                (None, None) => true,
                _ => false,
            },
            match (message_prefix, last_commit_message(nodes@.subrange(0, i as int))) {
                (Some(m), Some(want)) => m@ == want,
                (None, None) => true,
                _ => false,
            },
        decreases nodes@.len() - i,
    {
        let ghost pre = nodes@.subrange(0, i + 1);
        assert(pre.drop_last() =~= nodes@.subrange(0, i as int));
        assert(pre.last() == nodes@[i as int]);
        if let Some(args) = &nodes[i].author_mapping {
            author_map = Some(args.mapping.clone());
        }
        if let Some(args) = &nodes[i].commit_message {
            message_prefix = Some(args.message.clone());
        }
        i = i + 1;
    }
    assert(nodes@.subrange(0, nodes@.len() as int) =~= nodes@);
    (author_map, message_prefix)
}

} // verus!
