//! Commit identifiers, signatures, and commit metadata.
use vstd::prelude::*;

use crate::model::error::Error;

verus! {

/// Identifier of a commit, stored as its (non-empty) hex object ID.
#[derive(Debug, PartialEq, Eq, PartialOrd, Ord, Hash)]
pub struct CommitId(String);

impl View for CommitId {
    type V = Seq<char>;

    closed spec fn view(&self) -> Seq<char> {
        self.0@
    }
}

impl Clone for CommitId {
    fn clone(&self) -> (r: Self)
        ensures
            r@ == self@,
    {
        proof {
            use_type_invariant(self);
        }
        CommitId(self.0.clone())
    }
}

impl CommitId {
    #[verifier::type_invariant]
    spec fn inv(self) -> bool {
        self.0@.len() > 0
    }

    /// Creates a commit ID from a non-empty string.
    pub fn new(id: String) -> (r: Result<CommitId, Error>)
        ensures
            id@.len() > 0 ==> r is Ok && r->Ok_0@ == id@,
            id@.len() == 0 ==> (r matches Err(Error::InvalidCommitId(s)) && s@ == id@),
    {
        if id.as_str().is_empty() {
            return Err(Error::InvalidCommitId(id));
        }
        Ok(CommitId(id))
    }

    /// Returns the hex object ID.
    pub fn as_str(&self) -> (r: &str)
        ensures
            r@ == self@,
            r@.len() > 0,
    {
        proof {
            use_type_invariant(self);
        }
        self.0.as_str()
    }
}

/// Identity of an author or committer.
#[derive(Clone, Debug, PartialEq, Eq)]
pub struct Signature {
    /// Display name.
    pub name: String,
    /// Email address.
    pub email: String,
    /// UNIX timestamp in seconds.
    pub time: i64,
    /// Timezone offset from UTC in minutes (east positive).
    pub offset_minutes: i32,
}

impl Signature {
    /// Creates a new signature.
    pub fn new(name: String, email: String, time: i64, offset_minutes: i32) -> (r: Signature)
        ensures
            r.name@ == name@,
            r.email@ == email@,
            r.time == time,
            r.offset_minutes == offset_minutes,
    {
        Signature { name, email, time, offset_minutes }
    }

    /// A copy of the signature with the same field values.
    pub fn duplicate(&self) -> (r: Signature)
        ensures
            r.name@ == self.name@,
            r.email@ == self.email@,
            r.time == self.time,
            r.offset_minutes == self.offset_minutes,
    {
        Signature {
            name: self.name.clone(),
            email: self.email.clone(),
            time: self.time,
            offset_minutes: self.offset_minutes,
        }
    }
}

/// A commit's metadata, decoupled from the tree contents.
#[derive(Clone, Debug, PartialEq, Eq)]
pub struct Commit {
    /// Commit object ID.
    pub id: CommitId,
    /// Parent commit IDs, in order.
    pub parents: Vec<CommitId>,
    /// Commit message (full text, subject and body).
    pub message: String,
    /// Author signature.
    pub author: Signature,
    /// Committer signature.
    pub committer: Signature,
}

impl Commit {
    /// Creates a commit record.
    pub fn new(
        id: CommitId,
        parents: Vec<CommitId>,
        message: String,
        author: Signature,
        committer: Signature,
    ) -> (r: Commit)
        ensures
            r.id == id,
            r.parents == parents,
            r.message == message,
            r.author == author,
            r.committer == committer,
    {
        Commit { id, parents, message, author, committer }
    }
}

} // verus!
