//! Grouping of contributions: by the account that made them, and by the
//! repository that they were made to.
//!
//! Contributions of one author are told apart from those of another by the
//! numeric identifier of the author's account, never by the whole account
//! record: two records of one account, read at different times, may differ in
//! everything but that identifier.

use crate::models::{Repo, User};
use crate::Contribution;
use vstd::prelude::*;

verus! {

/// The test "has the key `key`".
pub open spec fn keyed<T, K>(key_of: spec_fn(T) -> K, key: K) -> spec_fn(T) -> bool {
    |item: T| key_of(item) == key
}

/// Some item with the key `first` stands in `all` before every item with the
/// key `second`.
pub open spec fn starts_before<T, K>(
    all: Seq<T>,
    key_of: spec_fn(T) -> K,
    first: K,
    second: K,
) -> bool {
    exists|p: int|
        0 <= p < all.len() && key_of(#[trigger] all[p]) == first && forall|q: int|
            0 <= q <= p ==> key_of(#[trigger] all[q]) != second
}

/// One of `parts` has the key `key`.
pub open spec fn has_part<T, K>(parts: Seq<(K, Seq<T>)>, key: K) -> bool {
    exists|i: int| 0 <= i < parts.len() && (#[trigger] parts[i]).0 == key
}

/// `parts` is the grouping of `all` by key. Each part is a key with the items
/// of `all` that have it, in their order, and there is at least one of them;
/// no two parts have the same key; the key of every item has a part; and the
/// parts stand in the order in which their first items stand in `all`.
pub open spec fn partitioned<T, K>(
    all: Seq<T>,
    key_of: spec_fn(T) -> K,
    parts: Seq<(K, Seq<T>)>,
) -> bool {
    &&& forall|i: int|
        0 <= i < parts.len() ==> (#[trigger] parts[i]).1 == all.filter(keyed(key_of, parts[i].0))
            && parts[i].1.len() > 0
    &&& forall|i: int, j: int|
        0 <= i < j < parts.len() ==> (#[trigger] parts[i]).0 != (#[trigger] parts[j]).0
    &&& forall|p: int| 0 <= p < all.len() ==> has_part(parts, key_of(#[trigger] all[p]))
    &&& forall|i: int, j: int|
        0 <= i < j < parts.len() ==> starts_before(
            all,
            key_of,
            (#[trigger] parts[i]).0,
            (#[trigger] parts[j]).0,
        )
}

/// An item that joins the part of its key leaves the grouping intact.
proof fn lemma_join_part<T, K>(
    all: Seq<T>,
    key_of: spec_fn(T) -> K,
    parts: Seq<(K, Seq<T>)>,
    joined: T,
    at: int,
    after: Seq<(K, Seq<T>)>,
)
    requires
        partitioned(all, key_of, parts),
        0 <= at < parts.len(),
        parts[at].0 == key_of(joined),
        after.len() == parts.len(),
        after[at] == (parts[at].0, parts[at].1.push(joined)),
        forall|i: int| 0 <= i < parts.len() && i != at ==> after[i] == parts[i],
    ensures
        partitioned(all.push(joined), key_of, after),
{
    let more = all.push(joined);
    assert forall|i: int| 0 <= i < after.len() implies (#[trigger] after[i]).1 == more.filter(
        keyed(key_of, after[i].0),
    ) && after[i].1.len() > 0 by {
        assert(parts[i].1 == all.filter(keyed(key_of, parts[i].0)));
        all.lemma_filter_push(joined, keyed(key_of, parts[i].0));
        if i < at {
            assert(parts[i].0 != parts[at].0);
        } else if at < i {
            assert(parts[at].0 != parts[i].0);
        }
    }
    assert forall|i: int, j: int| 0 <= i < j < after.len() implies (#[trigger] after[i]).0 != (
    #[trigger] after[j]).0 by {
        assert(parts[i].0 != parts[j].0);
    }
    assert forall|p: int| 0 <= p < more.len() implies has_part(
        after,
        key_of(#[trigger] more[p]),
    ) by {
        if p < all.len() {
            assert(has_part(parts, key_of(all[p])));
            let i = choose|i: int|
                0 <= i < parts.len() && (#[trigger] parts[i]).0 == key_of(all[p]);
            assert(after[i].0 == key_of(more[p]));
        } else {
            assert(after[at].0 == key_of(more[p]));
        }
    }
    assert forall|i: int, j: int| 0 <= i < j < after.len() implies starts_before(
        more,
        key_of,
        (#[trigger] after[i]).0,
        (#[trigger] after[j]).0,
    ) by {
        assert(starts_before(all, key_of, parts[i].0, parts[j].0));
        let p = choose|p: int|
            0 <= p < all.len() && key_of(#[trigger] all[p]) == parts[i].0 && forall|q: int|
                0 <= q <= p ==> key_of(#[trigger] all[q]) != parts[j].0;
        assert(more[p] == all[p]);
        assert forall|q: int| 0 <= q <= p implies key_of(#[trigger] more[q]) != after[j].0 by {
            assert(more[q] == all[q]);
        }
    }
}

/// An item whose key has no part yet opens a new part at the end.
proof fn lemma_open_part<T, K>(
    all: Seq<T>,
    key_of: spec_fn(T) -> K,
    parts: Seq<(K, Seq<T>)>,
    opened: T,
)
    requires
        partitioned(all, key_of, parts),
        forall|i: int| 0 <= i < parts.len() ==> (#[trigger] parts[i]).0 != key_of(opened),
    ensures
        partitioned(all.push(opened), key_of, parts.push((key_of(opened), seq![opened]))),
{
    let more = all.push(opened);
    let key = key_of(opened);
    let after = parts.push((key, seq![opened]));
    // No item of `all` has the new key.
    assert forall|p: int| 0 <= p < all.len() implies !keyed(key_of, key)(#[trigger] all[p]) by {
        assert(has_part(parts, key_of(all[p])));
        let i = choose|i: int| 0 <= i < parts.len() && (#[trigger] parts[i]).0 == key_of(all[p]);
        assert(parts[i].0 != key);
    }
    assert(all.filter(keyed(key_of, key)) =~= Seq::<T>::empty()) by {
        all.lemma_all_neg_filter_empty(keyed(key_of, key));
    }
    assert forall|i: int| 0 <= i < after.len() implies (#[trigger] after[i]).1 == more.filter(
        keyed(key_of, after[i].0),
    ) && after[i].1.len() > 0 by {
        all.lemma_filter_push(opened, keyed(key_of, after[i].0));
        if i < parts.len() {
            assert(parts[i].1 == all.filter(keyed(key_of, parts[i].0)));
        } else {
            assert(more.filter(keyed(key_of, key)) =~= seq![opened]);
        }
    }
    assert forall|i: int, j: int| 0 <= i < j < after.len() implies (#[trigger] after[i]).0 != (
    #[trigger] after[j]).0 by {
        if j < parts.len() {
            assert(parts[i].0 != parts[j].0);
        } else {
            assert(parts[i].0 != key);
        }
    }
    assert forall|p: int| 0 <= p < more.len() implies has_part(
        after,
        key_of(#[trigger] more[p]),
    ) by {
        if p < all.len() {
            assert(has_part(parts, key_of(all[p])));
            let i = choose|i: int|
                0 <= i < parts.len() && (#[trigger] parts[i]).0 == key_of(all[p]);
            assert(after[i].0 == key_of(more[p]));
        } else {
            assert(after[parts.len() as int].0 == key_of(more[p]));
        }
    }
    assert forall|i: int, j: int| 0 <= i < j < after.len() implies starts_before(
        more,
        key_of,
        (#[trigger] after[i]).0,
        (#[trigger] after[j]).0,
    ) by {
        if j < parts.len() {
            assert(starts_before(all, key_of, parts[i].0, parts[j].0));
            let p = choose|p: int|
                0 <= p < all.len() && key_of(#[trigger] all[p]) == parts[i].0 && forall|q: int|
                    0 <= q <= p ==> key_of(#[trigger] all[q]) != parts[j].0;
            assert(more[p] == all[p]);
            assert forall|q: int| 0 <= q <= p implies key_of(#[trigger] more[q]) != after[j].0 by {
                assert(more[q] == all[q]);
            }
        } else {
            // Part `i` is not empty, so one of its items stands in `all`.
            let first = parts[i].1[0];
            assert(parts[i].1 == all.filter(keyed(key_of, parts[i].0)));
            all.lemma_filter_pred(keyed(key_of, parts[i].0), 0);
            all.lemma_filter_contains_rev(keyed(key_of, parts[i].0), first);
            let p = choose|p: int| 0 <= p < all.len() && all[p] == first;
            assert(more[p] == all[p]);
            assert forall|q: int| 0 <= q <= p implies key_of(#[trigger] more[q]) != key by {
                assert(more[q] == all[q]);
                assert(!keyed(key_of, key)(all[q]));
            }
        }
    }
}

/// The contributions of one author, in the order in which they arrived.
#[derive(Debug)]
pub struct AuthorGroup {
    /// The account, as the group's first contribution records it; `None` for
    /// the contributions that no account is linked to.
    pub user: Option<User>,
    pub contributions: Vec<Contribution>,
}

/// The identity under which a contribution is grouped: its author's account
/// identifier, or nothing where no account is linked to it.
pub open spec fn author_key(contribution: Contribution) -> Option<u64> {
    match contribution.account() {
        Some(user) => Some(user.id),
        None => None,
    }
}

/// `author_key` as a value.
pub open spec fn by_author() -> spec_fn(Contribution) -> Option<u64> {
    |contribution: Contribution| author_key(contribution)
}

/// The contributions grouped under `key`, in their order in `all`.
pub open spec fn of_author(all: Seq<Contribution>, key: Option<u64>) -> Seq<Contribution> {
    all.filter(keyed(by_author(), key))
}

impl AuthorGroup {
    /// The identity that the group stands for.
    pub open spec fn key(self) -> Option<u64> {
        match self.user {
            Some(user) => Some(user.id),
            None => None,
        }
    }

    /// The group's account record is the one of its first contribution.
    pub open spec fn is_named_after_first(self) -> bool {
        match self.contributions@[0].account() {
            Some(user) => self.user == Some(*user),
            None => self.user is None,
        }
    }
}

/// The groups as keys with their contributions.
pub open spec fn author_parts(groups: Seq<AuthorGroup>) -> Seq<(Option<u64>, Seq<Contribution>)> {
    groups.map_values(|group: AuthorGroup| (group.key(), group.contributions@))
}

/// `groups` is the grouping of `all` by author. Every group holds the
/// contributions of `all` that are grouped under its key, in their order, and
/// at least one; no two groups share a key; each contribution's key has a
/// group; the groups stand in the order in which their first contributions
/// arrived; and each group's account record is that of its first
/// contribution.
pub open spec fn grouped(all: Seq<Contribution>, groups: Seq<AuthorGroup>) -> bool {
    &&& partitioned(all, by_author(), author_parts(groups))
    &&& forall|i: int| 0 <= i < groups.len() ==> (#[trigger] groups[i]).is_named_after_first()
}

/// The key under which `contribution` is grouped.
fn key_of(contribution: &Contribution) -> (key: Option<u64>)
    ensures
        key == author_key(*contribution),
{
    match contribution.user() {
        Some(user) => Some(user.id),
        None => None,
    }
}

fn same_key(a: Option<u64>, b: Option<u64>) -> (same: bool)
    ensures
        same == (a == b),
{
    match (a, b) {
        (Some(x), Some(y)) => x == y,
        (None, None) => true,
        _ => false,
    }
}

/// The position of the group that stands for `key`, if there is one.
fn find_group(groups: &Vec<AuthorGroup>, key: Option<u64>) -> (found: Option<usize>)
    ensures
        match found {
            Some(i) => i < groups@.len() && groups@[i as int].key() == key,
            None => forall|i: int| 0 <= i < groups@.len() ==> (#[trigger] groups@[i]).key() != key,
        },
{
    let mut i: usize = 0;
    while i < groups.len()
        invariant
            i <= groups@.len(),
            forall|j: int| 0 <= j < i ==> (#[trigger] groups@[j]).key() != key,
        decreases groups@.len() - i,
    {
        let group_key = match &groups[i].user {
            Some(user) => Some(user.id),
            None => None,
        };
        if same_key(group_key, key) {
            return Some(i);
        }
        i += 1;
    }
    None
}

/// Groups contributions by author. Two contributions share a group exactly
/// when their authors' account identifiers are equal, or when neither has an
/// author. Each group keeps its contributions in their order of arrival, and
/// the groups stand in the order in which their first contributions arrived.
pub fn contributions_by_user(contributions: Vec<Contribution>) -> (groups: Vec<AuthorGroup>)
    ensures
        grouped(contributions@, groups@),
{
    let ghost all = contributions@;
    let mut groups: Vec<AuthorGroup> = Vec::new();
    for contribution in it: contributions
        invariant
            it.seq() == all,
            grouped(all.take(it.index() as int), groups@),
    {
        let ghost seen = all.take(it.index() as int);
        let ghost before = groups@;
        proof {
            all.lemma_take_succ_push(it.index() as int);
        }
        match find_group(&groups, key_of(&contribution)) {
            Some(at) => {
                groups[at].contributions.push(contribution);
                proof {
                    assert(before[at as int].is_named_after_first());
                    lemma_join_part(
                        seen,
                        by_author(),
                        author_parts(before),
                        contribution,
                        at as int,
                        author_parts(groups@),
                    );
                    assert forall|i: int| 0 <= i < groups@.len() implies (
                    #[trigger] groups@[i]).is_named_after_first() by {
                        assert(before[i].is_named_after_first());
                        assert(author_parts(before)[i].1.len() > 0);
                    }
                }
            },
            None => {
                let user = match contribution.user() {
                    Some(user) => Some(user.clone()),
                    None => None,
                };
                let mut first: Vec<Contribution> = Vec::new();
                first.push(contribution);
                let group = AuthorGroup { user, contributions: first };
                groups.push(group);
                proof {
                    assert forall|i: int| 0 <= i < author_parts(before).len() implies (
                    #[trigger] author_parts(before)[i]).0 != by_author()(contribution) by {
                        assert(before[i].key() != author_key(contribution));
                    }
                    lemma_open_part(seen, by_author(), author_parts(before), contribution);
                    assert(author_parts(groups@) =~= author_parts(before).push(
                        (author_key(contribution), seq![contribution]),
                    ));
                    assert forall|i: int| 0 <= i < groups@.len() implies (
                    #[trigger] groups@[i]).is_named_after_first() by {
                        if i < before.len() {
                            assert(before[i].is_named_after_first());
                        }
                    }
                }
            },
        }
    }
    proof {
        all.lemma_take_len();
    }
    groups
}

/// Contributions that share an author identifier are never split: where a
/// contribution of one group and a contribution of another are grouped under
/// the same key, the two groups are one and the same.
pub proof fn lemma_one_group_per_author(
    all: Seq<Contribution>,
    groups: Seq<AuthorGroup>,
    i: int,
    p: int,
    j: int,
    q: int,
)
    requires
        grouped(all, groups),
        0 <= i < groups.len(),
        0 <= j < groups.len(),
        0 <= p < groups[i].contributions@.len(),
        0 <= q < groups[j].contributions@.len(),
        author_key(groups[i].contributions@[p]) == author_key(groups[j].contributions@[q]),
    ensures
        i == j,
{
    let parts = author_parts(groups);
    assert(parts[i].1 == groups[i].contributions@);
    assert(parts[j].1 == groups[j].contributions@);
    all.lemma_filter_pred(keyed(by_author(), parts[i].0), p);
    all.lemma_filter_pred(keyed(by_author(), parts[j].0), q);
    if i < j {
        assert(parts[i].0 != parts[j].0);
    } else if j < i {
        assert(parts[j].0 != parts[i].0);
    }
}

/// Every contribution is placed: the group that stands for its author holds
/// it, that group holds all that is grouped under that author and nothing
/// else, and no other group stands for that author.
pub proof fn lemma_every_contribution_placed(
    all: Seq<Contribution>,
    groups: Seq<AuthorGroup>,
    p: int,
) -> (i: int)
    requires
        grouped(all, groups),
        0 <= p < all.len(),
    ensures
        0 <= i < groups.len(),
        groups[i].key() == author_key(all[p]),
        groups[i].contributions@.contains(all[p]),
        groups[i].contributions@ == of_author(all, author_key(all[p])),
        forall|j: int|
            0 <= j < groups.len() && (#[trigger] groups[j]).key() == author_key(all[p]) ==> j == i,
{
    let parts = author_parts(groups);
    assert(has_part(parts, by_author()(all[p])));
    let i = choose|i: int| 0 <= i < parts.len() && (#[trigger] parts[i]).0 == by_author()(all[p]);
    assert(parts[i].1 == groups[i].contributions@);
    all.lemma_filter_contains(keyed(by_author(), parts[i].0), p);
    assert forall|j: int|
        0 <= j < groups.len() && (#[trigger] groups[j]).key() == author_key(all[p]) implies j
        == i by {
        if j < i {
            assert(parts[j].0 != parts[i].0);
        } else if i < j {
            assert(parts[i].0 != parts[j].0);
        }
    }
    i
}

/// The contributions that no account is linked to are never split: at most
/// one group has no account, and it holds all of them.
pub proof fn lemma_single_unknown_author_group(
    all: Seq<Contribution>,
    groups: Seq<AuthorGroup>,
    i: int,
    j: int,
)
    requires
        grouped(all, groups),
        0 <= i < groups.len(),
        0 <= j < groups.len(),
        groups[i].user is None,
        groups[j].user is None,
    ensures
        i == j,
        groups[i].contributions@ == of_author(all, None),
{
    let parts = author_parts(groups);
    assert(parts[i].1 == groups[i].contributions@);
    if i < j {
        assert(parts[i].0 != parts[j].0);
    } else if j < i {
        assert(parts[j].0 != parts[i].0);
    }
}

/// The contributions that were made to one repository.
#[derive(Debug)]
pub struct RepoContributions {
    pub repo: Repo,
    pub contributions: Vec<Contribution>,
}

/// The repository that a contribution was made to, by organization and name.
pub open spec fn by_repo() -> spec_fn(Contribution) -> (Seq<char>, Seq<char>) {
    |contribution: Contribution| contribution.repo@
}

/// The views as keys with their contributions.
pub open spec fn repo_parts(views: Seq<RepoContributions>) -> Seq<
    ((Seq<char>, Seq<char>), Seq<Contribution>),
> {
    views.map_values(|view: RepoContributions| (view.repo@, view.contributions@))
}

/// Regroups contributions by the repository that they were made to. Nothing
/// is tested and nothing is dropped: each contribution stands, once, in the
/// view of its repository, in its order of arrival, and the views stand in
/// the order in which their first contributions arrived.
pub fn contributions_by_repo(contributions: Vec<Contribution>) -> (views: Vec<RepoContributions>)
    ensures
        partitioned(contributions@, by_repo(), repo_parts(views@)),
{
    let ghost all = contributions@;
    let mut views: Vec<RepoContributions> = Vec::new();
    for contribution in it: contributions
        invariant
            it.seq() == all,
            partitioned(all.take(it.index() as int), by_repo(), repo_parts(views@)),
    {
        let ghost seen = all.take(it.index() as int);
        let ghost before = views@;
        proof {
            all.lemma_take_succ_push(it.index() as int);
        }
        let mut found: Option<usize> = None;
        let mut i: usize = 0;
        while i < views.len() && found.is_none()
            invariant
                i <= views@.len(),
                views@ == before,
                match found {
                    Some(at) => at < views@.len() && views@[at as int].repo@ == contribution.repo@,
                    None => forall|j: int|
                        0 <= j < i ==> (#[trigger] views@[j]).repo@ != contribution.repo@,
                },
            decreases views@.len() - i + if found is None { 1int } else { 0int },
        {
            if views[i].repo == contribution.repo {
                found = Some(i);
            } else {
                i += 1;
            }
        }
        match found {
            Some(at) => {
                views[at].contributions.push(contribution);
                proof {
                    lemma_join_part(
                        seen,
                        by_repo(),
                        repo_parts(before),
                        contribution,
                        at as int,
                        repo_parts(views@),
                    );
                }
            },
            None => {
                let repo = contribution.repo.clone();
                let mut first: Vec<Contribution> = Vec::new();
                first.push(contribution);
                views.push(RepoContributions { repo, contributions: first });
                proof {
                    assert forall|i: int| 0 <= i < repo_parts(before).len() implies (
                    #[trigger] repo_parts(before)[i]).0 != by_repo()(contribution) by {
                        assert(before[i].repo@ != contribution.repo@);
                    }
                    lemma_open_part(seen, by_repo(), repo_parts(before), contribution);
                    assert(repo_parts(views@) =~= repo_parts(before).push(
                        (contribution.repo@, seq![contribution]),
                    ));
                }
            },
        }
    }
    proof {
        all.lemma_take_len();
    }
    views
}

} // verus!
