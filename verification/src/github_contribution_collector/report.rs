//! The views that a report is made from. They only rearrange and count what
//! the policy left: no contribution is tested again.

use crate::contribution::GithubContribution;
use crate::github_contribution_collector::Output;
use crate::Contribution;
use vstd::prelude::*;

verus! {

/// The test "is no member of the company's organizations".
pub open spec fn outsider() -> spec_fn(Output) -> bool {
    |record: Output| !record.membership
}

/// The records of the authors who are no members of the company's
/// organizations, in their order.
pub fn non_members(outputs: Vec<Output>) -> (kept: Vec<Output>)
    ensures
        kept@ == outputs@.filter(outsider()),
{
    let ghost all = outputs@;
    let mut kept: Vec<Output> = Vec::new();
    assert(all.take(0).filter(outsider()) =~= Seq::<Output>::empty()) by {
        all.take(0).lemma_filter_len(outsider());
    }
    for record in it: outputs
        invariant
            it.seq() == all,
            kept@ == all.take(it.index() as int).filter(outsider()),
    {
        proof {
            all.lemma_take_succ_push(it.index() as int);
            all.take(it.index() as int).lemma_filter_push(record, outsider());
        }
        if !record.membership {
            kept.push(record);
        }
    }
    proof {
        all.lemma_take_len();
    }
    kept
}

/// What is reported of all authors together: the contributions of the first
/// record, then those of the second, and so on.
pub open spec fn reported_contributions(outputs: Seq<Output>) -> Seq<Contribution> {
    outputs.map_values(|record: Output| record.contributions@).flatten()
}

/// Copies out the contributions of all records, record after record.
pub fn all_contributions(outputs: &Vec<Output>) -> (all: Vec<Contribution>)
    ensures
        all@ == reported_contributions(outputs@),
{
    let ghost lists = outputs@.map_values(|record: Output| record.contributions@);
    let mut all: Vec<Contribution> = Vec::new();
    let mut i: usize = 0;
    assert(outputs@.take(0) =~= Seq::<Output>::empty());
    assert(reported_contributions(outputs@.take(0)) =~= Seq::<Contribution>::empty());
    while i < outputs.len()
        invariant
            i <= outputs@.len(),
            all@ == reported_contributions(outputs@.take(i as int)),
        decreases outputs@.len() - i,
    {
        let ghost before = all@;
        let record = &outputs[i];
        let mut j: usize = 0;
        while j < record.contributions.len()
            invariant
                j <= record.contributions@.len(),
                all@ == before + record.contributions@.take(j as int),
            decreases record.contributions@.len() - j,
        {
            proof {
                record.contributions@.lemma_take_succ_push(j as int);
            }
            all.push(record.contributions[j].clone());
            j += 1;
        }
        proof {
            record.contributions@.lemma_take_len();
            outputs@.lemma_take_succ_push(i as int);
            outputs@.take(i as int).lemma_push_map_commute(
                |record: Output| record.contributions@,
                *record,
            );
            outputs@.take(i as int).map_values(
                |record: Output| record.contributions@,
            ).lemma_flatten_push(record.contributions@);
        }
        i += 1;
    }
    proof {
        outputs@.lemma_take_len();
    }
    all
}

/// How many contributions of each kind a list holds.
#[derive(Clone, Copy, Debug, PartialEq, Eq, Structural)]
pub struct Tally {
    pub issues: usize,
    pub reviews: usize,
    pub commits: usize,
}

pub open spec fn is_issue() -> spec_fn(Contribution) -> bool {
    |contribution: Contribution| contribution.contribution is Issue
}

pub open spec fn is_review() -> spec_fn(Contribution) -> bool {
    |contribution: Contribution| contribution.contribution is Review
}

pub open spec fn is_commit() -> spec_fn(Contribution) -> bool {
    |contribution: Contribution| contribution.contribution is Commit
}

/// Counts the contributions of a list by kind. The three counts add up to
/// the length of the list.
pub fn tally(contributions: &Vec<Contribution>) -> (counts: Tally)
    ensures
        counts.issues == contributions@.filter(is_issue()).len(),
        counts.reviews == contributions@.filter(is_review()).len(),
        counts.commits == contributions@.filter(is_commit()).len(),
        counts.issues + counts.reviews + counts.commits == contributions@.len(),
{
    let ghost all = contributions@;
    let mut counts = Tally { issues: 0, reviews: 0, commits: 0 };
    let mut i: usize = 0;
    proof {
        all.take(0).lemma_filter_len(is_issue());
        all.take(0).lemma_filter_len(is_review());
        all.take(0).lemma_filter_len(is_commit());
    }
    while i < contributions.len()
        invariant
            i <= all.len(),
            all == contributions@,
            counts.issues == all.take(i as int).filter(is_issue()).len(),
            counts.reviews == all.take(i as int).filter(is_review()).len(),
            counts.commits == all.take(i as int).filter(is_commit()).len(),
            counts.issues + counts.reviews + counts.commits == i,
        decreases all.len() - i,
    {
        proof {
            all.lemma_take_succ_push(i as int);
            all.take(i as int).lemma_filter_push(all[i as int], is_issue());
            all.take(i as int).lemma_filter_push(all[i as int], is_review());
            all.take(i as int).lemma_filter_push(all[i as int], is_commit());
        }
        match &contributions[i].contribution {
            GithubContribution::Issue(_) => {
                counts.issues += 1;
            },
            GithubContribution::Review(_) => {
                counts.reviews += 1;
            },
            GithubContribution::Commit(_) => {
                counts.commits += 1;
            },
        }
        i += 1;
    }
    proof {
        all.lemma_take_len();
    }
    counts
}

} // verus!
