//! The decisions of history replay: source commits are replayed oldest
//! first into the destination, each rewritten commit pointing at the
//! rewritten forms of its parents, with identities carried over (or remapped)
//! and the generated-commit marker appended to its message. Reading and
//! writing repositories, and running the transforms, is the caller's part.
use vstd::prelude::*;

use crate::git::CommitSpec;
use crate::marker::{mark_generated, marked};
use crate::model::commit::{Commit, CommitId, Signature};
use crate::entries::{find_key, lookup};
use crate::text::{chars_eq, chars_of, concat_chars, string_of};

verus! {

/// The map that a list of recorded pairs describes; a later pair for the
/// same source overrides an earlier one.
pub open spec fn map_of(s: Seq<(CommitId, CommitId)>) -> Map<Seq<char>, Seq<char>>
    decreases s.len(),
{
    if s.len() == 0 {
        Map::empty()
    } else {
        map_of(s.drop_last()).insert(s.last().0@, s.last().1@)
    }
}

/// Source commit ids mapped to the destination commits written for them.
#[derive(Debug)]
pub struct CommitMap {
    entries: Vec<(CommitId, CommitId)>,
}

impl View for CommitMap {
    type V = Map<Seq<char>, Seq<char>>;

    closed spec fn view(&self) -> Map<Seq<char>, Seq<char>> {
        map_of(self.entries@)
    }
}

impl CommitMap {
    /// An empty map.
    pub fn new() -> (r: CommitMap)
        ensures
            r@ == Map::<Seq<char>, Seq<char>>::empty(),
    {
        CommitMap { entries: Vec::new() }
    }

    /// Maps `source` to `destination`, replacing any earlier mapping.
    pub fn insert(&mut self, source: CommitId, destination: CommitId)
        ensures
            final(self)@ == old(self)@.insert(source@, destination@),
    {
        let ghost before = self.entries@;
        self.entries.push((source, destination));
        assert(self.entries@.drop_last() =~= before);
    }

    /// The destination commit recorded for `source`.
    pub fn get(&self, source: &CommitId) -> (r: Option<CommitId>)
        ensures
            match r {
                Some(d) => self@.contains_key(source@) && self@[source@] == d@,
                None => !self@.contains_key(source@),
            },
    {
        let n = self.entries.len();
        let key = chars_of(source.as_str());
        let mut k: usize = n;
        assert(self.entries@.subrange(0, n as int) =~= self.entries@);
        while k > 0
            invariant
                k <= n,
                n == self.entries@.len(),
                key@ == source@,
                map_of(self.entries@).contains_key(source@) == map_of(self.entries@.subrange(0, k as int)).contains_key(source@),
                map_of(self.entries@).contains_key(source@) ==> map_of(self.entries@)[source@] == map_of(self.entries@.subrange(0, k as int))[source@],
            decreases k,
        {
            let ghost pre = self.entries@.subrange(0, k as int);
            assert(pre.drop_last() =~= self.entries@.subrange(0, k - 1));
            assert(pre.last() == self.entries@[k - 1]);
            if chars_eq(&chars_of(self.entries[k - 1].0.as_str()), &key) {
                return Some(self.entries[k - 1].1.clone());
            }
            k = k - 1;
        }
        None
    }
}

/// Outcome of a history replay.
#[derive(Debug)]
pub struct HistoryReport {
    /// Number of source commits rewritten and committed to the destination.
    pub commits_replayed: usize,
    /// Number of source commits already mapped (incremental skip).
    pub commits_skipped: usize,
    /// The last destination commit written, if any.
    pub last_commit: Option<CommitId>,
}

/// An email remapped through the author map (the first entry for it),
/// else unchanged.
pub open spec fn remapped(author_map: Seq<(String, String)>, email: Seq<char>) -> Seq<char> {
    match lookup(author_map, email) {
        Some(v) => v@,
        None => email,
    }
}

/// The text before a rewritten message: the prefix, if any.
pub open spec fn prefix_text(prefix: Option<&str>) -> Seq<char> {
    match prefix {
        Some(p) => p@,
        None => seq![],
    }
}

/// The destination parents: the rewritten form of each source parent that
/// has one, in order.
pub open spec fn destination_parents_of(parents: Seq<Seq<char>>, m: Map<Seq<char>, Seq<char>>) -> Seq<Seq<char>>
    decreases parents.len(),
{
    if parents.len() == 0 {
        seq![]
    } else if m.contains_key(parents.last()) {
        destination_parents_of(parents.drop_last(), m).push(m[parents.last()])
    } else {
        destination_parents_of(parents.drop_last(), m)
    }
}

/// The ids of a list of commits.
pub open spec fn ids(v: Seq<CommitId>) -> Seq<Seq<char>> {
    v.map_values(|c: CommitId| c@)
}

/// `s` with the same name, time and offset and the email `email`.
pub open spec fn with_email(r: Signature, s: Signature, email: Seq<char>) -> bool {
    r.name@ == s.name@ && r.email@ == email && r.time == s.time && r.offset_minutes == s.offset_minutes
}

/// What a rewritten commit is written with.
#[derive(Debug)]
pub struct CommitPlan {
    pub spec: CommitSpec,
    pub parents: Vec<CommitId>,
}

fn remap_signature(s: &Signature, author_map: Option<&Vec<(String, String)>>) -> (r: Signature)
    ensures
        with_email(r, *s, match author_map {
            Some(m) => remapped(m@, s.email@),
            None => s.email@,
        }),
{
    let mut out = s.duplicate();
    if let Some(m) = author_map {
        if let Some(i) = find_key(m, &chars_of(s.email.as_str())) {
            out.email = m[i].1.clone();
        }
    }
    out
}

/// The progress of a history replay: the commits mapped so far and the
/// report.
#[derive(Debug)]
pub struct HistoryReplay {
    map: CommitMap,
    report: HistoryReport,
}

impl HistoryReplay {
    /// The mapping from source to destination commits so far.
    pub closed spec fn mapping(&self) -> Map<Seq<char>, Seq<char>> {
        self.map@
    }

    /// The counts so far.
    pub closed spec fn replayed(&self) -> nat {
        self.report.commits_replayed as nat
    }

    /// The number of commits skipped so far.
    pub closed spec fn skipped(&self) -> nat {
        self.report.commits_skipped as nat
    }

    /// The last destination commit written so far.
    pub closed spec fn last(&self) -> Option<Seq<char>> {
        match self.report.last_commit {
            Some(c) => Some(c@),
            None => None,
        }
    }

    /// A replay that has done nothing yet.
    pub fn new() -> (r: HistoryReplay)
        ensures
            r.mapping() == Map::<Seq<char>, Seq<char>>::empty(),
            r.replayed() == 0,
            r.skipped() == 0,
            r.last() is None,
    {
        HistoryReplay {
            map: CommitMap::new(),
            report: HistoryReport { commits_replayed: 0, commits_skipped: 0, last_commit: None },
        }
    }

    /// Whether another commit can be counted.
    pub fn can_count(&self) -> (r: bool)
        ensures
            r == (self.replayed() < usize::MAX && self.skipped() < usize::MAX),
    {
        self.report.commits_replayed < usize::MAX && self.report.commits_skipped < usize::MAX
    }

    /// Records that `source` was exported before as `destination`: the
    /// earlier commit is reused as the parent of later ones.
    pub fn skip(&mut self, source: CommitId, destination: CommitId)
        requires
            old(self).skipped() < usize::MAX,
        ensures
            final(self).mapping() == old(self).mapping().insert(source@, destination@),
            final(self).skipped() == old(self).skipped() + 1,
            final(self).replayed() == old(self).replayed(),
            final(self).last() == old(self).last(),
    {
        self.map.insert(source, destination);
        self.report.commits_skipped = self.report.commits_skipped + 1;
    }

    /// Records that `source` was rewritten as `destination`.
    pub fn replayed_as(&mut self, source: CommitId, destination: CommitId)
        requires
            old(self).replayed() < usize::MAX,
        ensures
            final(self).mapping() == old(self).mapping().insert(source@, destination@),
            final(self).replayed() == old(self).replayed() + 1,
            final(self).skipped() == old(self).skipped(),
            final(self).last() == Some(destination@),
    {
        let last = destination.clone();
        self.map.insert(source, destination);
        self.report.commits_replayed = self.report.commits_replayed + 1;
        self.report.last_commit = Some(last);
    }

    /// How the source commit `source`, described by `info`, is rewritten:
    /// the prefix and its message followed by the marker naming `source`;
    /// its author and committer, emails remapped through `author_map`; and
    /// the rewritten forms of its parents.
    pub fn plan_commit(
        &self,
        source: &CommitId,
        info: &Commit,
        author_map: Option<&Vec<(String, String)>>,
        message_prefix: Option<&str>,
    ) -> (r: CommitPlan)
        ensures
            r.spec.message@ == marked(prefix_text(message_prefix) + info.message@, source@),
            r.spec.author is Some && with_email(r.spec.author->0, info.author, match author_map {
                Some(m) => remapped(m@, info.author.email@),
                None => info.author.email@,
            }),
            r.spec.committer is Some && with_email(r.spec.committer->0, info.committer, match author_map {
                Some(m) => remapped(m@, info.committer.email@),
                None => info.committer.email@,
            }),
            ids(r.parents@) == destination_parents_of(ids(info.parents@), self.mapping()),
    {
        let base: Vec<char> = match message_prefix {
            Some(p) => concat_chars(&chars_of(p), &chars_of(info.message.as_str())),
            None => chars_of(info.message.as_str()),
        };
        assert(base@ =~= prefix_text(message_prefix) + info.message@);
        let message = mark_generated(string_of(&base).as_str(), source);
        let author = remap_signature(&info.author, author_map);
        let committer = remap_signature(&info.committer, author_map);
        let mut parents: Vec<CommitId> = Vec::new();
        let mut i: usize = 0;
        while i < info.parents.len()
            invariant
                i <= info.parents@.len(),
                ids(parents@) == destination_parents_of(ids(info.parents@).subrange(0, i as int), self.mapping()),
            decreases info.parents@.len() - i,
        {
            let ghost pre = ids(info.parents@).subrange(0, i + 1);
            assert(pre.drop_last() =~= ids(info.parents@).subrange(0, i as int));
            assert(pre.last() == info.parents@[i as int]@);
            let ghost before = ids(parents@);
            match self.map.get(&info.parents[i]) {
                Some(d) => {
                    parents.push(d);
                    assert(ids(parents@) =~= before.push(self.mapping()[info.parents@[i as int]@]));
                },
                None => {},
            }
            i = i + 1;
        }
        assert(ids(info.parents@).subrange(0, info.parents@.len() as int) =~= ids(info.parents@));
        CommitPlan { spec: CommitSpec { message, author: Some(author), committer: Some(committer) }, parents }
    }

    /// The report of the replay.
    pub fn finish(self) -> (r: HistoryReport)
        ensures
            r.commits_replayed == self.replayed(),
            r.commits_skipped == self.skipped(),
            match r.last_commit {
                Some(c) => self.last() == Some(c@),
                None => self.last() is None,
            },
    {
        self.report
    }
}

/// The destination commit a state record names, if it names one (an empty
/// record names none).
pub fn recorded_destination(stored: Option<String>) -> (r: Option<CommitId>)
    ensures
        match stored {
            Some(s) => if s@.len() > 0 { r is Some && r->0@ == s@ } else { r is None },
            None => r is None,
        },
{
    match stored {
        Some(s) => match CommitId::new(s) {
            Ok(id) => Some(id),
            Err(_) => None,
        },
        None => None,
    }
}

/// A source commit mapped to a destination commit (replayed, or skipped
/// because an earlier run recorded it) is reused: every later commit that
/// has it as a parent gets the destination commit as a parent.
pub proof fn lemma_mapped_parent_is_reused(m: Map<Seq<char>, Seq<char>>, source: Seq<char>, destination: Seq<char>, parents: Seq<Seq<char>>)
    requires
        parents.contains(source),
    ensures
        destination_parents_of(parents, m.insert(source, destination)).contains(destination),
    decreases parents.len(),
{
    let m2 = m.insert(source, destination);
    if parents.last() == source {
        let r = destination_parents_of(parents, m2);
        assert(r.last() == destination);
        assert(r[r.len() - 1] == destination);
    } else {
        let k = choose|k: int| 0 <= k < parents.len() && parents[k] == source;
        assert(parents.drop_last()[k] == source);
        lemma_mapped_parent_is_reused(m, source, destination, parents.drop_last());
        let prev = destination_parents_of(parents.drop_last(), m2);
        let j = choose|j: int| 0 <= j < prev.len() && prev[j] == destination;
        assert(destination_parents_of(parents, m2)[j] == prev[j]);
    }
}

} // verus!
