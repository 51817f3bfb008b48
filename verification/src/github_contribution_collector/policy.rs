//! The reporting policy: which contributions of an author are reported, and
//! which authors are reported at all.

use crate::github_contribution_collector::enrichment::Resolution;
use crate::github_contribution_collector::grouping::{
    author_key, grouped, lemma_one_group_per_author, AuthorGroup,
};
use crate::github_contribution_collector::repo_regex::RepoRegex;
use crate::github_contribution_collector::{Output, Params};
use crate::models::EnrichedUser;
use crate::Contribution;
use vstd::prelude::*;

verus! {

/// An author's company text, as far as there is an author and one is known.
pub open spec fn company_of(author: Option<EnrichedUser>) -> Option<String> {
    match author {
        Some(known) => known.company,
        None => None,
    }
}

/// An author's e-mail address, as far as there is an author and one is known.
pub open spec fn email_of(author: Option<EnrichedUser>) -> Option<String> {
    match author {
        Some(known) => known.email,
        None => None,
    }
}

/// The contribution is reported: the window admits it, and every
/// repository's rules keep it. Only the rules of the repository that it was
/// made to can drop it, and only by matching its author.
pub open spec fn survives(
    contribution: Contribution,
    author: Option<EnrichedUser>,
    repos: Seq<RepoRegex>,
    params: Params,
) -> bool {
    &&& params.admits(contribution.creation())
    &&& forall|i: int|
        0 <= i < repos.len() ==> (#[trigger] repos[i]).keeps(
            contribution,
            company_of(author),
            email_of(author),
        )
}

/// The test "is reported", for the contributions of one author.
pub open spec fn surviving(
    author: Option<EnrichedUser>,
    repos: Seq<RepoRegex>,
    params: Params,
) -> spec_fn(Contribution) -> bool {
    |contribution: Contribution| survives(contribution, author, repos, params)
}

/// The contributions of one author together with what the inquiry into the
/// author ended with.
#[derive(Debug)]
pub struct SettledGroup {
    pub contributions: Vec<Contribution>,
    pub resolution: Resolution,
}

impl SettledGroup {
    /// What is reported of the group: nothing of an excluded author, and of
    /// any other the contributions that survive, in their order.
    pub open spec fn kept(self, repos: Seq<RepoRegex>, params: Params) -> Seq<Contribution> {
        match self.resolution {
            Resolution::Excluded => Seq::empty(),
            Resolution::Settled { author, .. } => self.contributions@.filter(
                surviving(author, repos, params),
            ),
        }
    }

    /// The group is reported: something of it is left.
    pub open spec fn is_reported(self, repos: Seq<RepoRegex>, params: Params) -> bool {
        self.kept(repos, params).len() > 0
    }
}

/// The test "is reported", for groups.
pub open spec fn reported(repos: Seq<RepoRegex>, params: Params) -> spec_fn(SettledGroup) -> bool {
    |group: SettledGroup| group.is_reported(repos, params)
}

impl Output {
    /// The record is the report of `group`: it names the group's author and
    /// membership and holds what is kept of the group.
    pub open spec fn reports(
        self,
        group: SettledGroup,
        repos: Seq<RepoRegex>,
        params: Params,
    ) -> bool {
        &&& group.resolution matches Resolution::Settled { author, membership }
        &&& self.user == author
        &&& self.membership == membership
        &&& self.contributions@ == group.kept(repos, params)
        &&& self.contributions@.len() > 0
    }
}

/// `outputs` are the records of `groups`: one for each group that is
/// reported, in the order of the groups.
pub open spec fn are_records_of(
    outputs: Seq<Output>,
    groups: Seq<SettledGroup>,
    repos: Seq<RepoRegex>,
    params: Params,
) -> bool {
    &&& outputs.len() == groups.filter(reported(repos, params)).len()
    &&& forall|k: int|
        0 <= k < outputs.len() ==> (#[trigger] outputs[k]).reports(
            groups.filter(reported(repos, params))[k],
            repos,
            params,
        )
}

/// Whether a contribution is reported, for the author that it belongs to.
fn passes(
    contribution: &Contribution,
    author: &Option<EnrichedUser>,
    repos: &Vec<RepoRegex>,
    params: &Params,
) -> (kept: bool)
    ensures
        kept == survives(*contribution, *author, repos@, *params),
{
    if !params.in_window(contribution.created_at()) {
        return false;
    }
    let unknown: Option<String> = None;
    let (company, email) = match author {
        Some(known) => (&known.company, &known.email),
        None => (&unknown, &unknown),
    };
    let mut i: usize = 0;
    while i < repos.len()
        invariant
            i <= repos@.len(),
            *company == company_of(*author),
            *email == email_of(*author),
            forall|j: int|
                0 <= j < i ==> (#[trigger] repos@[j]).keeps(
                    *contribution,
                    company_of(*author),
                    email_of(*author),
                ),
        decreases repos@.len() - i,
    {
        if !repos[i].retains(contribution, company, email) {
            return false;
        }
        i += 1;
    }
    true
}

/// Applies the window and the exclusion rules to the contributions of one
/// author. What is reported stays, in its order; everything else is dropped.
pub fn filter_contributions(
    contributions: Vec<Contribution>,
    author: &Option<EnrichedUser>,
    repos: &Vec<RepoRegex>,
    params: &Params,
) -> (kept: Vec<Contribution>)
    ensures
        kept@ == contributions@.filter(surviving(*author, repos@, *params)),
{
    let ghost all = contributions@;
    let ghost test = surviving(*author, repos@, *params);
    let mut kept: Vec<Contribution> = Vec::new();
    assert(all.take(0).filter(test) =~= Seq::<Contribution>::empty()) by {
        all.take(0).lemma_filter_len(test);
    }
    for contribution in it: contributions
        invariant
            it.seq() == all,
            test == surviving(*author, repos@, *params),
            kept@ == all.take(it.index() as int).filter(test),
    {
        proof {
            all.lemma_take_succ_push(it.index() as int);
            all.take(it.index() as int).lemma_filter_push(contribution, test);
        }
        if passes(&contribution, author, repos, params) {
            kept.push(contribution);
        }
    }
    proof {
        all.lemma_take_len();
    }
    kept
}

/// The record of one author, if anything of the author is reported. An
/// excluded author has none, and neither has an author of whom nothing is
/// left after the window and the exclusion rules were applied.
pub fn output_for(group: SettledGroup, repos: &Vec<RepoRegex>, params: &Params) -> (output: Option<
    Output,
>)
    ensures
        output is Some <==> group.is_reported(repos@, *params),
        output matches Some(record) ==> record.reports(group, repos@, *params),
{
    match group.resolution {
        Resolution::Excluded => None,
        Resolution::Settled { author, membership } => {
            let kept = filter_contributions(group.contributions, &author, repos, params);
            if kept.len() == 0 {
                None
            } else {
                Some(Output { user: author, membership, contributions: kept })
            }
        },
    }
}

/// The records of a run: one for each group that is reported, in the order
/// of the groups. A group of which nothing is reported has no record, so no
/// record is empty.
pub fn process_contributions(
    groups: Vec<SettledGroup>,
    repos: &Vec<RepoRegex>,
    params: &Params,
) -> (outputs: Vec<Output>)
    ensures
        are_records_of(outputs@, groups@, repos@, *params),
{
    let ghost all = groups@;
    let ghost test = reported(repos@, *params);
    let mut outputs: Vec<Output> = Vec::new();
    assert(all.take(0).filter(test) =~= Seq::<SettledGroup>::empty()) by {
        all.take(0).lemma_filter_len(test);
    }
    for group in it: groups
        invariant
            it.seq() == all,
            test == reported(repos@, *params),
            outputs@.len() == all.take(it.index() as int).filter(test).len(),
            forall|k: int|
                0 <= k < outputs@.len() ==> (#[trigger] outputs@[k]).reports(
                    all.take(it.index() as int).filter(test)[k],
                    repos@,
                    *params,
                ),
    {
        proof {
            all.lemma_take_succ_push(it.index() as int);
            all.take(it.index() as int).lemma_filter_push(group, test);
        }
        if let Some(record) = output_for(group, repos, params) {
            outputs.push(record);
        }
    }
    proof {
        all.lemma_take_len();
    }
    outputs
}

/// What a test leaves of a sequence stands in the sequence, in the same
/// order: there are positions, one for each item that is left, that grow from
/// item to item and at which the sequence holds these items.
pub proof fn lemma_filter_positions<A>(all: Seq<A>, test: spec_fn(A) -> bool) -> (positions: Seq<
    int,
>)
    ensures
        positions.len() == all.filter(test).len(),
        forall|k: int|
            0 <= k < positions.len() ==> 0 <= #[trigger] positions[k] < all.len()
                && all[positions[k]] == all.filter(test)[k],
        forall|k: int, l: int|
            0 <= k < l < positions.len() ==> #[trigger] positions[k] < #[trigger] positions[l],
    decreases all.len(),
{
    reveal(Seq::filter);
    if all.len() == 0 {
        Seq::empty()
    } else {
        let earlier = lemma_filter_positions(all.drop_last(), test);
        if test(all.last()) {
            earlier.push(all.len() - 1)
        } else {
            earlier
        }
    }
}

/// No author has more than one record. Where the groups of a run are those
/// of a grouping by author, two contributions of one author that are both
/// reported stand in the same record; an author of whom nothing is left has
/// no record at all.
pub proof fn lemma_one_record_per_author(
    all: Seq<Contribution>,
    authors: Seq<AuthorGroup>,
    groups: Seq<SettledGroup>,
    repos: Seq<RepoRegex>,
    params: Params,
    outputs: Seq<Output>,
    a: int,
    p: int,
    b: int,
    q: int,
)
    requires
        grouped(all, authors),
        groups.len() == authors.len(),
        forall|i: int|
            0 <= i < groups.len() ==> (#[trigger] groups[i]).contributions@
                == authors[i].contributions@,
        are_records_of(outputs, groups, repos, params),
        0 <= a < outputs.len(),
        0 <= b < outputs.len(),
        0 <= p < outputs[a].contributions@.len(),
        0 <= q < outputs[b].contributions@.len(),
        author_key(outputs[a].contributions@[p]) == author_key(outputs[b].contributions@[q]),
    ensures
        a == b,
{
    let test = reported(repos, params);
    let positions = lemma_filter_positions(groups, test);
    let i = positions[a];
    let j = positions[b];
    assert(outputs[a].reports(groups[i], repos, params));
    assert(outputs[b].reports(groups[j], repos, params));
    let first = outputs[a].contributions@[p];
    let second = outputs[b].contributions@[q];
    // What is kept of a group stands in the group.
    let first_test = surviving(groups[i].resolution->Settled_author, repos, params);
    let second_test = surviving(groups[j].resolution->Settled_author, repos, params);
    assert(groups[i].kept(repos, params) == groups[i].contributions@.filter(first_test));
    assert(groups[j].kept(repos, params) == groups[j].contributions@.filter(second_test));
    assert(groups[i].contributions@.filter(first_test).contains(first));
    assert(groups[j].contributions@.filter(second_test).contains(second));
    groups[i].contributions@.lemma_filter_contains_rev(first_test, first);
    groups[j].contributions@.lemma_filter_contains_rev(second_test, second);
    let m = choose|m: int|
        0 <= m < authors[i].contributions@.len() && authors[i].contributions@[m] == first;
    let n = choose|n: int|
        0 <= n < authors[j].contributions@.len() && authors[j].contributions@[n] == second;
    lemma_one_group_per_author(all, authors, i, m, j, n);
    if a < b {
        assert(positions[a] < positions[b]);
    } else if b < a {
        assert(positions[b] < positions[a]);
    }
}

} // verus!
