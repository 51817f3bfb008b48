//! Putting together what was read of the platform.
//!
//! Whatever is read in several parts, read side by side or one after the
//! other, is whole only if every part was read. One part that failed fails
//! the whole, and nothing is handed out in its place.

use crate::contribution::{GithubContribution, Issue, Review};
use crate::github_contribution_collector::repo_regex::{
    compiles_all, is_first_refused, PatternError, RepoRegex,
};
use crate::models::commit::EnrichedCommit;
use crate::models::Repo;
use crate::{config, Contribution};
use vstd::prelude::*;

verus! {

/// The contents of `parts`, part after part, where every part was read.
pub open spec fn joined<T, E>(parts: Seq<Result<Vec<T>, E>>) -> Seq<T> {
    parts.map_values(|part: Result<Vec<T>, E>| part->Ok_0@).flatten()
}

/// Joins what was read in parts. Where every part was read, the whole is the
/// parts' contents, part after part. Otherwise the whole fails as the first
/// part that failed.
pub fn gather<T, E>(parts: Vec<Result<Vec<T>, E>>) -> (whole: Result<Vec<T>, E>)
    ensures
        match whole {
            Ok(all) => all@ == joined(parts@) && forall|k: int|
                0 <= k < parts@.len() ==> (#[trigger] parts@[k]) is Ok,
            Err(error) => exists|at: int|
                0 <= at < parts@.len() && #[trigger] parts@[at] == Err::<Vec<T>, E>(error)
                    && forall|k: int| 0 <= k < at ==> (#[trigger] parts@[k]) is Ok,
        },
{
    let ghost given = parts@;
    let mut all: Vec<T> = Vec::new();
    assert(given.take(0) =~= Seq::<Result<Vec<T>, E>>::empty());
    assert(joined(given.take(0)) =~= Seq::<T>::empty());
    for part in it: parts
        invariant
            it.seq() == given,
            forall|k: int| 0 <= k < it.index() ==> (#[trigger] given[k]) is Ok,
            all@ == joined(given.take(it.index() as int)),
    {
        let ghost read = given.take(it.index() as int);
        proof {
            given.lemma_take_succ_push(it.index() as int);
            read.lemma_push_map_commute(|part: Result<Vec<T>, E>| part->Ok_0@, part);
            read.map_values(|part: Result<Vec<T>, E>| part->Ok_0@).lemma_flatten_push(
                part->Ok_0@,
            );
        }
        match part {
            Ok(items) => {
                let mut items = items;
                all.append(&mut items);
            },
            Err(error) => {
                assert(given[it.index() as int] == Err::<Vec<T>, E>(error));
                return Err(error);
            },
        }
    }
    proof {
        given.lemma_take_len();
    }
    Ok(all)
}

/// An issue as a contribution to `repo`.
pub open spec fn issue_to(repo: Repo) -> spec_fn(Issue) -> Contribution {
    |issue: Issue| Contribution { repo, contribution: GithubContribution::Issue(issue) }
}

/// A review as a contribution to `repo`.
pub open spec fn review_to(repo: Repo) -> spec_fn(Review) -> Contribution {
    |review: Review| Contribution { repo, contribution: GithubContribution::Review(review) }
}

/// A commit as a contribution to `repo`.
pub open spec fn commit_to(repo: Repo) -> spec_fn(EnrichedCommit) -> Contribution {
    |commit: EnrichedCommit| Contribution { repo, contribution: GithubContribution::Commit(commit) }
}

/// The activity of `repo` as contributions: its issues first, then its
/// reviews, then its commits, each list in its order.
pub open spec fn activity(
    repo: Repo,
    issues: Seq<Issue>,
    reviews: Seq<Review>,
    commits: Seq<EnrichedCommit>,
) -> Seq<Contribution> {
    issues.map_values(issue_to(repo)) + reviews.map_values(review_to(repo)) + commits.map_values(
        commit_to(repo),
    )
}

/// Puts the three lists of a repository's activity into one list of
/// contributions.
pub fn collect(
    repo: &Repo,
    issues: Vec<Issue>,
    reviews: Vec<Review>,
    commits: Vec<EnrichedCommit>,
) -> (all: Vec<Contribution>)
    ensures
        all@ == activity(*repo, issues@, reviews@, commits@),
{
    let mut all: Vec<Contribution> = Vec::new();
    let ghost given_issues = issues@;
    let ghost given_reviews = reviews@;
    let ghost given_commits = commits@;
    for issue in it: issues
        invariant
            it.seq() == given_issues,
            all@ == given_issues.take(it.index() as int).map_values(issue_to(*repo)),
    {
        proof {
            given_issues.lemma_take_succ_push(it.index() as int);
            given_issues.take(it.index() as int).lemma_push_map_commute(issue_to(*repo), issue);
        }
        all.push(
            Contribution { repo: repo.clone(), contribution: GithubContribution::Issue(issue) },
        );
    }
    proof {
        given_issues.lemma_take_len();
    }
    let ghost first = all@;
    for review in it: reviews
        invariant
            it.seq() == given_reviews,
            all@ == first + given_reviews.take(it.index() as int).map_values(review_to(*repo)),
    {
        proof {
            given_reviews.lemma_take_succ_push(it.index() as int);
            given_reviews.take(it.index() as int).lemma_push_map_commute(
                review_to(*repo),
                review,
            );
        }
        all.push(
            Contribution { repo: repo.clone(), contribution: GithubContribution::Review(review) },
        );
    }
    proof {
        given_reviews.lemma_take_len();
    }
    let ghost second = all@;
    for commit in it: commits
        invariant
            it.seq() == given_commits,
            all@ == second + given_commits.take(it.index() as int).map_values(commit_to(*repo)),
    {
        proof {
            given_commits.lemma_take_succ_push(it.index() as int);
            given_commits.take(it.index() as int).lemma_push_map_commute(
                commit_to(*repo),
                commit,
            );
        }
        all.push(
            Contribution { repo: repo.clone(), contribution: GithubContribution::Commit(commit) },
        );
    }
    proof {
        given_commits.lemma_take_len();
    }
    all
}

/// The contributions to a repository, from the three lists that were read of
/// it side by side. All three have to be there: where one of them failed,
/// the repository has no contributions to show but the failure, the one of
/// the issues before the one of the reviews before the one of the commits.
pub fn contributions<E>(
    repo: &Repo,
    issues: Result<Vec<Issue>, E>,
    reviews: Result<Vec<Review>, E>,
    commits: Result<Vec<EnrichedCommit>, E>,
) -> (all: Result<Vec<Contribution>, E>)
    ensures
        match (issues, reviews, commits) {
            (Err(error), _, _) => all == Err::<Vec<Contribution>, E>(error),
            (Ok(_), Err(error), _) => all == Err::<Vec<Contribution>, E>(error),
            (Ok(_), Ok(_), Err(error)) => all == Err::<Vec<Contribution>, E>(error),
            (Ok(opened), Ok(written), Ok(made)) => all matches Ok(list) && list@ == activity(
                *repo,
                opened@,
                written@,
                made@,
            ),
        },
{
    let issues = match issues {
        Ok(list) => list,
        Err(error) => {
            return Err(error);
        },
    };
    let reviews = match reviews {
        Ok(list) => list,
        Err(error) => {
            return Err(error);
        },
    };
    let commits = match commits {
        Ok(list) => list,
        Err(error) => {
            return Err(error);
        },
    };
    Ok(collect(repo, issues, reviews, commits))
}

/// Compiles the exclusion rules of every configured repository, in their
/// order. The first company whose patterns are refused is reported: the first
/// of the first repository that has such a company.
pub fn compile_rules(repos: &Vec<config::Repo>) -> (rules: Result<Vec<RepoRegex>, PatternError>)
    ensures
        rules is Ok <==> forall|i: int|
            0 <= i < repos@.len() ==> compiles_all(#[trigger] repos@[i]),
        rules matches Ok(compiled) ==> compiled@.len() == repos@.len() && forall|i: int|
            0 <= i < repos@.len() ==> (#[trigger] compiled@[i]).is_built_from(repos@[i]),
        rules matches Err(refused) ==> exists|i: int|
            0 <= i < repos@.len() && is_first_refused(#[trigger] repos@[i], refused.company)
                && forall|k: int| 0 <= k < i ==> compiles_all(#[trigger] repos@[k]),
{
    let mut compiled: Vec<RepoRegex> = Vec::new();
    let mut i: usize = 0;
    while i < repos.len()
        invariant
            i <= repos@.len(),
            compiled@.len() == i,
            forall|k: int| 0 <= k < i ==> (#[trigger] compiled@[k]).is_built_from(repos@[k]),
            forall|k: int| 0 <= k < i ==> compiles_all(#[trigger] repos@[k]),
        decreases repos@.len() - i,
    {
        match RepoRegex::new(&repos[i]) {
            Ok(rules) => {
                compiled.push(rules);
            },
            Err(refused) => {
                return Err(refused);
            },
        }
        i += 1;
    }
    Ok(compiled)
}

} // verus!
