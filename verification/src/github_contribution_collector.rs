//! The aggregation pipeline: from the raw activity of the tracked
//! repositories to one record per reported author.
//!
//! The caller performs every remote call and hands the answer over. The
//! pipeline says which pages have to be read (`pages`), puts the activity of
//! a repository together (`collect`), groups it by author (`grouping`),
//! settles each author's affiliation (`enrichment`) and applies the reporting
//! policy (`policy`, `repo_regex`). `report` gives the views that a report is
//! printed from.

use crate::models::{EnrichedUser, Timestamp};
use crate::Contribution;
use vstd::prelude::*;
use vstd::string::*;

pub mod collect;
pub mod enrichment;
pub mod grouping;
pub mod pages;
pub mod policy;
pub mod repo_regex;
pub mod report;
pub mod requests;

verus! {

/// The time window of a run. A bound that is absent does not restrict.
#[derive(Clone, Copy, Debug)]
pub struct Params {
    /// The first instant that is reported.
    pub since: Option<Timestamp>,
    /// The first instant that is no longer reported.
    pub until: Option<Timestamp>,
}

/// The record of one reported author.
#[derive(Debug)]
pub struct Output {
    /// The author; `None` for the contributions that no account is linked to.
    pub user: Option<EnrichedUser>,
    /// Whether the author belongs to one of the company's organizations.
    pub membership: bool,
    /// What is reported of the author: never empty in a record that the
    /// pipeline hands out.
    pub contributions: Vec<Contribution>,
}

/// A failed request. Where the platform itself answered with an error, the
/// answer names the page of the platform's documentation that describes the
/// request; a failure of the transport names none. `error` is the caller's
/// own record of the failure, which the pipeline hands back untouched.
#[derive(Debug)]
pub struct Failure<E> {
    pub documentation_url: Option<String>,
    pub error: E,
}

impl<E> Failure<E> {
    /// The failure is the platform's own, described at `url`.
    pub open spec fn documented_at(self, url: Seq<char>) -> bool {
        self.documentation_url matches Some(named) && named@ == url
    }

    /// The failure is one of the transport: the platform did not answer, so
    /// that the same request may well succeed when it is made again.
    pub open spec fn is_transient(self) -> bool {
        self.documentation_url is None
    }

    /// Whether the failure is the platform's own and described at `url`.
    pub fn is_documented_at(&self, url: &str) -> (documented: bool)
        ensures
            documented == self.documented_at(url@),
    {
        match &self.documentation_url {
            Some(named) => {
                let expected = String::from_str(url);
                *named == expected
            },
            None => false,
        }
    }
}

/// The RFC 3339 text of the instant `secs` seconds and `nanos` nanoseconds
/// after 1970-01-01T00:00:00Z, in UTC; nothing where the calendar in use has
/// no such instant.
pub uninterp spec fn rfc3339_text(secs: int, nanos: int) -> Option<Seq<char>>;

/// Builds the instant with `chrono::DateTime::from_timestamp`, which gives
/// nothing for seconds outside the calendar's range or nanoseconds that are
/// no part of a second, and writes it with `chrono::DateTime::to_rfc3339`.
/// Both depend on the two numbers alone.
#[verifier::external_body]
fn to_rfc3339(at: Timestamp) -> (text: Option<String>)
    ensures
        match text {
            Some(written) => rfc3339_text(at.secs as int, at.nanos as int) == Some(written@),
            None => rfc3339_text(at.secs as int, at.nanos as int) is None,
        },
{
    match chrono::DateTime::from_timestamp(at.secs, at.nanos) {
        Some(instant) => Some(instant.to_rfc3339()),
        None => None,
    }
}

/// The text in which a bound of the window is sent to the platform. An absent
/// bound has none, and neither has one that cannot be written.
pub open spec fn bound_text(bound: Option<Timestamp>) -> Option<Seq<char>> {
    match bound {
        Some(at) => rfc3339_text(at.secs as int, at.nanos as int),
        None => None,
    }
}

/// The query parameters for the two bounds: `since` first, then `until`,
/// each only where it has a text.
pub open spec fn query(since: Option<Seq<char>>, until: Option<Seq<char>>) -> Seq<
    (Seq<char>, Seq<char>),
> {
    let first = match since {
        Some(text) => seq![("since"@, text)],
        None => Seq::empty(),
    };
    let second = match until {
        Some(text) => seq![("until"@, text)],
        None => Seq::empty(),
    };
    first + second
}

/// A list of query parameters as names and values.
pub open spec fn pairs(params: Seq<(&'static str, String)>) -> Seq<(Seq<char>, Seq<char>)> {
    params.map_values(|pair: (&'static str, String)| (pair.0@, pair.1@))
}

/// A text that is there or not, as a value.
pub open spec fn text_of(text: Option<String>) -> Option<Seq<char>> {
    match text {
        Some(t) => Some(t@),
        None => None,
    }
}

/// Puts the query parameters together from the texts of the two bounds.
/// Without any bound there are no parameters at all.
pub fn query_params(since: Option<String>, until: Option<String>) -> (params: Option<
    Vec<(&'static str, String)>,
>)
    ensures
        params is None <==> since is None && until is None,
        params matches Some(list) ==> pairs(list@) == query(text_of(since), text_of(until)),
{
    let mut list: Vec<(&'static str, String)> = Vec::new();
    if let Some(text) = since {
        list.push(("since", text));
    }
    if let Some(text) = until {
        list.push(("until", text));
    }
    assert(pairs(list@) =~= query(text_of(since), text_of(until)));
    if list.len() == 0 {
        None
    } else {
        Some(list)
    }
}

impl Params {
    /// The window admits a contribution made at `at`: one without a time
    /// always, another when it was made at or after `since` and before
    /// `until`, as far as the bounds are there.
    pub open spec fn admits(self, at: Option<Timestamp>) -> bool {
        match at {
            None => true,
            Some(made) => {
                &&& self.since matches Some(since) ==> !made.precedes(since)
                &&& self.until matches Some(until) ==> made.precedes(until)
            },
        }
    }

    #[verifier::when_used_as_spec(admits)]
    pub fn in_window(self, at: Option<Timestamp>) -> (admitted: bool)
        ensures
            admitted == self.admits(at),
    {
        match at {
            None => true,
            Some(made) => {
                let late_enough = match self.since {
                    Some(since) => !made.is_before(since),
                    None => true,
                };
                let early_enough = match self.until {
                    Some(until) => made.is_before(until),
                    None => true,
                };
                late_enough && early_enough
            },
        }
    }

    /// The window as query parameters of a list request, so that the platform
    /// leaves out what lies outside it. A bound that cannot be written as
    /// text is not sent; the window itself still holds it.
    pub fn to_params(&self) -> (params: Option<Vec<(&'static str, String)>>)
        ensures
            params is None <==> bound_text(self.since) is None && bound_text(self.until) is None,
            params matches Some(list) ==> pairs(list@) == query(
                bound_text(self.since),
                bound_text(self.until),
            ),
    {
        let since = match self.since {
            Some(at) => to_rfc3339(at),
            None => None,
        };
        let until = match self.until {
            Some(at) => to_rfc3339(at),
            None => None,
        };
        query_params(since, until)
    }
}

/// The two ends of a window. A contribution made exactly at `until` is
/// outside it; one made exactly at `since` is inside it whenever `since` lies
/// before `until`, and outside it in a window that is empty because `since`
/// does not lie before `until`; one without a time is inside it.
pub proof fn lemma_window_bounds(since: Timestamp, until: Timestamp)
    ensures
        (Params { since: Some(since), until: Some(until) }).admits(Some(since)) <==> since.precedes(
            until,
        ),
        !(Params { since: Some(since), until: Some(until) }).admits(Some(until)),
        (Params { since: Some(since), until: Some(until) }).admits(None),
{
}

} // verus!
