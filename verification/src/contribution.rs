//! One unit of recorded activity.

use crate::models::commit::EnrichedCommit;
use crate::models::{Repo, Timestamp, User};
use vstd::prelude::*;
use vstd::std_specs::convert::FromSpecImpl;

verus! {

/// An issue: who opened it, and when.
#[derive(Debug)]
pub struct Issue {
    pub id: u64,
    pub user: User,
    pub created_at: Timestamp,
}

/// A pull-request review: who wrote it, and when it was submitted. A review
/// that is still in progress has no submission time.
#[derive(Debug)]
pub struct Review {
    pub id: u64,
    pub user: User,
    pub submitted_at: Option<Timestamp>,
}

/// What counts as a contribution.
#[derive(Debug)]
pub enum GithubContribution {
    Commit(EnrichedCommit),
    Issue(Issue),
    Review(Review),
}

/// A contribution and the repository it was made to.
#[derive(Debug)]
pub struct Contribution {
    pub repo: Repo,
    pub contribution: GithubContribution,
}

impl Contribution {
    pub fn new(org: String, repo: String, contribution: GithubContribution) -> (made: Self)
        ensures
            made.repo.org == org,
            made.repo.name == repo,
            made.contribution == contribution,
    {
        Contribution { repo: Repo::new(org, repo), contribution }
    }

    /// When the contribution was made: a commit's author date, an issue's
    /// creation time, a review's submission time where it has one.
    pub open spec fn creation(&self) -> Option<Timestamp> {
        match self.contribution {
            GithubContribution::Commit(commit) => Some(commit.commit.author.date),
            GithubContribution::Issue(issue) => Some(issue.created_at),
            GithubContribution::Review(review) => review.submitted_at,
        }
    }

    /// The account behind the contribution. Only a commit can lack one.
    pub open spec fn account(&self) -> Option<&User> {
        match &self.contribution {
            GithubContribution::Commit(commit) => match &commit.inner.author {
                Some(user) => Some(user),
                None => None,
            },
            GithubContribution::Issue(issue) => Some(&issue.user),
            GithubContribution::Review(review) => Some(&review.user),
        }
    }

    #[verifier::when_used_as_spec(creation)]
    pub fn created_at(&self) -> (at: Option<Timestamp>)
        ensures
            at == self.creation(),
    {
        match &self.contribution {
            GithubContribution::Commit(commit) => Some(commit.commit.author.date),
            GithubContribution::Issue(issue) => Some(issue.created_at),
            GithubContribution::Review(review) => review.submitted_at,
        }
    }

    #[verifier::when_used_as_spec(account)]
    pub fn user(&self) -> (author: Option<&User>)
        ensures
            author == self.account(),
    {
        match &self.contribution {
            GithubContribution::Commit(commit) => commit.inner.author.as_ref(),
            GithubContribution::Issue(issue) => Some(&issue.user),
            GithubContribution::Review(review) => Some(&review.user),
        }
    }
}

impl From<EnrichedCommit> for GithubContribution {
    fn from(commit: EnrichedCommit) -> (made: GithubContribution) {
        GithubContribution::Commit(commit)
    }
}

impl FromSpecImpl<EnrichedCommit> for GithubContribution {
    open spec fn obeys_from_spec() -> bool {
        true
    }

    open spec fn from_spec(commit: EnrichedCommit) -> GithubContribution {
        GithubContribution::Commit(commit)
    }
}

impl From<Issue> for GithubContribution {
    fn from(issue: Issue) -> (made: GithubContribution) {
        GithubContribution::Issue(issue)
    }
}

impl FromSpecImpl<Issue> for GithubContribution {
    open spec fn obeys_from_spec() -> bool {
        true
    }

    open spec fn from_spec(issue: Issue) -> GithubContribution {
        GithubContribution::Issue(issue)
    }
}

impl From<Review> for GithubContribution {
    fn from(review: Review) -> (made: GithubContribution) {
        GithubContribution::Review(review)
    }
}

impl FromSpecImpl<Review> for GithubContribution {
    open spec fn obeys_from_spec() -> bool {
        true
    }

    open spec fn from_spec(review: Review) -> GithubContribution {
        GithubContribution::Review(review)
    }
}

impl Clone for Issue {
    fn clone(&self) -> (copy: Self)
        ensures
            copy == *self,
    {
        Issue { id: self.id, user: self.user.clone(), created_at: self.created_at }
    }
}

impl Clone for Review {
    fn clone(&self) -> (copy: Self)
        ensures
            copy == *self,
    {
        Review { id: self.id, user: self.user.clone(), submitted_at: self.submitted_at }
    }
}

impl Clone for GithubContribution {
    fn clone(&self) -> (copy: Self)
        ensures
            copy == *self,
    {
        match self {
            GithubContribution::Commit(commit) => GithubContribution::Commit(commit.clone()),
            GithubContribution::Issue(issue) => GithubContribution::Issue(issue.clone()),
            GithubContribution::Review(review) => GithubContribution::Review(review.clone()),
        }
    }
}

impl Clone for Contribution {
    fn clone(&self) -> (copy: Self)
        ensures
            copy == *self,
    {
        Contribution { repo: self.repo.clone(), contribution: self.contribution.clone() }
    }
}

} // verus!
