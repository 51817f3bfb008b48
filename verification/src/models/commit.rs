//! A commit as the pipeline sees it.

use crate::models::{Timestamp, User};
use vstd::prelude::*;

verus! {

/// The platform's commit record: the commit's hash and the account the
/// platform links to its author. A commit written under an e-mail address
/// that belongs to no account has no linked author.
#[derive(Debug)]
pub struct Commit {
    pub sha: String,
    pub author: Option<User>,
}

/// The author line of the commit itself.
#[derive(Debug)]
pub struct Author {
    pub name: String,
    pub email: String,
    pub date: Timestamp,
}

/// The git metadata of a commit.
#[derive(Debug)]
pub struct CommitObject {
    pub author: Author,
}

/// A commit record with its git metadata.
#[derive(Debug)]
pub struct EnrichedCommit {
    pub inner: Commit,
    pub commit: CommitObject,
}

impl Clone for Commit {
    fn clone(&self) -> (copy: Self)
        ensures
            copy == *self,
    {
        let author = match &self.author {
            Some(user) => Some(user.clone()),
            None => None,
        };
        Commit { sha: self.sha.clone(), author }
    }
}

impl Clone for Author {
    fn clone(&self) -> (copy: Self)
        ensures
            copy == *self,
    {
        Author { name: self.name.clone(), email: self.email.clone(), date: self.date }
    }
}

impl Clone for CommitObject {
    fn clone(&self) -> (copy: Self)
        ensures
            copy == *self,
    {
        CommitObject { author: self.author.clone() }
    }
}

impl Clone for EnrichedCommit {
    fn clone(&self) -> (copy: Self)
        ensures
            copy == *self,
    {
        EnrichedCommit { inner: self.inner.clone(), commit: self.commit.clone() }
    }
}

} // verus!
