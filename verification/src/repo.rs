//! Plain data carriers for the repository-metadata fetch helper that rides
//! along with the drawing client. The fetch itself is transport work and
//! lives outside the core; these types are what it fills in.

use vstd::prelude::*;

verus! {

/// One branch of a repository: its name and the commit it points at.
#[derive(Debug)]
pub struct Branch {
    pub name: String,
    pub commit: Commit,
}

/// A commit reference: its hash and its details.
#[derive(Debug)]
pub struct Commit {
    pub sha: String,
    pub commit: CommitDetails,
}

/// Who wrote and who committed.
#[derive(Debug)]
pub struct CommitDetails {
    pub author: Signature,
    pub committer: Signature,
}

/// A name and address pair.
#[derive(Debug)]
pub struct Signature {
    pub name: String,
    pub email: String,
}

} // verus!
