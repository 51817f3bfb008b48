//! The requests that the pipeline has the caller make, and what a failed
//! first request means.

use crate::github_contribution_collector::pages::{page_view, process_pages, Page, Walk, WalkView};
use crate::github_contribution_collector::Failure;
use crate::models::Repo;
use vstd::prelude::*;
use vstd::string::*;

verus! {

/// The lists that are read of a repository.
#[derive(Clone, Copy, Debug, PartialEq, Eq, Structural)]
pub enum Listing {
    Issues,
    PullRequests,
    Commits,
}

/// The page of the platform's documentation named by the answer to a request
/// for the issues of a repository that has none.
pub const ISSUES_DOCUMENTATION: &'static str =
    "https://docs.github.com/rest/reference/issues#list-repository-issues";

/// The same for a repository without pull requests.
pub const PULL_REQUESTS_DOCUMENTATION: &'static str =
    "https://docs.github.com/rest/reference/pulls#list-pull-requests";

/// The same for a repository without commits.
pub const COMMITS_DOCUMENTATION: &'static str =
    "https://docs.github.com/rest/reference/repos#list-commits";

impl Listing {
    /// The page of the platform's documentation that describes the request
    /// for this list.
    pub open spec fn documentation(self) -> Seq<char> {
        match self {
            Listing::Issues => ISSUES_DOCUMENTATION@,
            Listing::PullRequests => PULL_REQUESTS_DOCUMENTATION@,
            Listing::Commits => COMMITS_DOCUMENTATION@,
        }
    }

    pub fn documentation_url(self) -> (url: &'static str)
        ensures
            url@ == self.documentation(),
    {
        match self {
            Listing::Issues => ISSUES_DOCUMENTATION,
            Listing::PullRequests => PULL_REQUESTS_DOCUMENTATION,
            Listing::Commits => COMMITS_DOCUMENTATION,
        }
    }
}

/// The path under which the issues of `repo` are listed.
pub fn issues_path(repo: &Repo) -> (path: String)
    ensures
        path@ == "/repos/"@ + repo.org@ + "/"@ + repo.name@ + "/issues"@,
{
    String::from_str("/repos/").concat(repo.org.as_str()).concat("/").concat(
        repo.name.as_str(),
    ).concat("/issues")
}

/// The path under which the commits of `repo` are listed.
pub fn commits_path(repo: &Repo) -> (path: String)
    ensures
        path@ == "/repos/"@ + repo.org@ + "/"@ + repo.name@ + "/commits"@,
{
    String::from_str("/repos/").concat(repo.org.as_str()).concat("/").concat(
        repo.name.as_str(),
    ).concat("/commits")
}

/// The path under which the profile of the account `login` is found.
pub fn user_path(login: &String) -> (path: String)
    ensures
        path@ == "/users/"@ + login@,
{
    String::from_str("/users/").concat(login.as_str())
}

/// What the answer to the request for the first page of a list means. A page
/// is the first of the list. A failure that names the documentation of the
/// request itself says that the repository has no such list, which is then
/// empty and has no page. Any other failure stops the run.
pub open spec fn first_of<T, E>(listing: Listing, fetched: Result<Page<T>, Failure<E>>) -> Result<
    Option<Page<T>>,
    E,
> {
    match fetched {
        Ok(page) => Ok(Some(page)),
        Err(failure) => if failure.documented_at(listing.documentation()) {
            Ok(None)
        } else {
            Err(failure.error)
        },
    }
}

/// Decides what the answer to the request for the first page of a list means.
pub fn first_page<T, E>(listing: Listing, fetched: Result<Page<T>, Failure<E>>) -> (first: Result<
    Option<Page<T>>,
    E,
>)
    ensures
        first == first_of(listing, fetched),
{
    match fetched {
        Ok(page) => Ok(Some(page)),
        Err(failure) => {
            if failure.is_documented_at(listing.documentation_url()) {
                Ok(None)
            } else {
                Err(failure.error)
            }
        },
    }
}

/// Begins to read a list of a repository with the answer to the request for
/// its first page. A list that the repository does not have is read at once
/// and is empty; a first request that failed otherwise has failed the walk.
pub fn start_listing<T, E>(listing: Listing, fetched: Result<Page<T>, Failure<E>>) -> (walk: Walk<
    T,
    E,
>)
    ensures
        walk@ == match first_of(listing, fetched) {
            Ok(first) => WalkView::<T, E>::begin(page_view(first)),
            Err(error) => WalkView::<T, E>::Failed { error },
        },
{
    match first_page(listing, fetched) {
        Ok(first) => process_pages(first),
        Err(error) => Walk::Failed { error },
    }
}

} // verus!
