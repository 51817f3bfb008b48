//! What is known of an author's affiliation, and how it is found out.
//!
//! For each author the pipeline either knows the answer from the run's
//! configuration or has questions for the platform: first the account's
//! profile, then, organization by organization, whether the account is a
//! member. `Enrichment` is the state of that inquiry. The caller asks the
//! platform what the state calls for and reports the answer; the next state
//! follows from the two.

use crate::config::UserOverride;
use crate::github_contribution_collector::Failure;
use crate::models::{EnrichedUser, User};
use vstd::prelude::*;
use vstd::string::*;

verus! {

/// The page of the platform's documentation named by the answer to a request
/// for the profile of an account that cannot be found.
pub const USER_DOCUMENTATION: &'static str =
    "https://docs.github.com/rest/reference/users#get-a-user";

/// What an account's profile says of its affiliation.
#[derive(Debug)]
pub struct Profile {
    pub company: Option<String>,
    pub email: Option<String>,
}

/// What the inquiry into one author ended with.
#[derive(Debug)]
pub enum Resolution {
    /// The author's login is on the exclude list: nothing of the author is
    /// reported.
    Excluded,
    /// The author and the membership are settled. Contributions that no
    /// account is linked to have no author and no membership.
    Settled { author: Option<EnrichedUser>, membership: bool },
}

/// The state of the inquiry into one author.
#[derive(Debug)]
pub enum Enrichment<E> {
    /// The profile of `user` has to be fetched.
    NeedsProfile { user: User },
    /// The company organization at position `org` has to be asked whether
    /// `author` is a member. No organization before it has said yes.
    NeedsMembership { author: EnrichedUser, org: usize },
    /// Nothing is left to ask.
    Done(Resolution),
    /// A request failed in a way that stops the run.
    Aborted { error: E },
}

/// `text` reads the same as an entry of `list`.
pub open spec fn listed(list: Seq<String>, text: Seq<char>) -> bool {
    exists|i: int| 0 <= i < list.len() && (#[trigger] list[i])@ == text
}

/// The override that counts for `login`: the last one configured for it.
pub open spec fn override_for(overrides: Seq<UserOverride>, login: Seq<char>) -> Option<
    UserOverride,
>
    decreases overrides.len(),
{
    if overrides.len() == 0 {
        None
    } else if overrides.last().login@ == login {
        Some(overrides.last())
    } else {
        override_for(overrides.drop_last(), login)
    }
}

/// Whether `text` reads the same as an entry of `list`.
pub fn is_listed(list: &Vec<String>, text: &String) -> (found: bool)
    ensures
        found == listed(list@, text@),
{
    let mut i: usize = 0;
    while i < list.len()
        invariant
            i <= list@.len(),
            forall|j: int| 0 <= j < i ==> (#[trigger] list@[j])@ != text@,
        decreases list@.len() - i,
    {
        if list[i] == *text {
            return true;
        }
        i += 1;
    }
    false
}

/// Looks up the override that counts for `login`.
pub fn find_override<'a>(overrides: &'a Vec<UserOverride>, login: &String) -> (found: Option<
    &'a UserOverride,
>)
    ensures
        match found {
            Some(entry) => override_for(overrides@, login@) == Some(*entry),
            None => override_for(overrides@, login@) is None,
        },
{
    let mut i: usize = overrides.len();
    assert(overrides@.take(i as int) =~= overrides@);
    while i > 0
        invariant
            i <= overrides@.len(),
            override_for(overrides@, login@) == override_for(overrides@.take(i as int), login@),
        decreases i,
    {
        proof {
            assert(overrides@.take(i as int).drop_last() =~= overrides@.take(i as int - 1));
        }
        i -= 1;
        if overrides[i].login == *login {
            return Some(&overrides[i]);
        }
    }
    None
}

impl<E> Enrichment<E> {
    /// The state with which the inquiry into an author begins.
    ///
    /// Contributions that no account is linked to are settled at once,
    /// without author or membership. An author on the exclude list is
    /// dropped before anything else is looked at. An author with a configured
    /// override is settled at once as well: the company is the configured
    /// one, no e-mail address is known, and the author counts as a member
    /// exactly when that company reads the same as one of the company
    /// organizations. Of every other author the profile is needed.
    pub open spec fn begin(
        user: Option<User>,
        user_overrides: Seq<UserOverride>,
        users_exclude: Seq<String>,
        company_orgs: Seq<String>,
    ) -> Enrichment<E> {
        match user {
            None => Enrichment::Done(Resolution::Settled { author: None, membership: false }),
            Some(user) => if listed(users_exclude, user.login@) {
                Enrichment::Done(Resolution::Excluded)
            } else {
                match override_for(user_overrides, user.login@) {
                    Some(entry) => Enrichment::Done(
                        Resolution::Settled {
                            author: Some(
                                EnrichedUser {
                                    inner: user,
                                    company: Some(entry.company),
                                    email: None,
                                },
                            ),
                            membership: listed(company_orgs, entry.company@),
                        },
                    ),
                    None => Enrichment::NeedsProfile { user },
                }
            },
        }
    }

    /// The state once `author`'s profile is known: the first organization is
    /// asked, or, with no organization to ask, the author is settled as no
    /// member.
    pub open spec fn profiled(author: EnrichedUser, organizations: nat) -> Enrichment<E> {
        if organizations == 0 {
            Enrichment::Done(Resolution::Settled { author: Some(author), membership: false })
        } else {
            Enrichment::NeedsMembership { author, org: 0 }
        }
    }

    /// The state that follows the answer to a request for a profile.
    ///
    /// A profile that was found is taken as it is. An account that the
    /// platform cannot find is kept, with neither company nor e-mail address.
    /// Any other failure stops the run. In a state that does not ask for a
    /// profile the answer changes nothing.
    pub open spec fn after_profile(
        self,
        fetched: Result<Profile, Failure<E>>,
        organizations: nat,
    ) -> Enrichment<E> {
        match self {
            Enrichment::NeedsProfile { user } => match fetched {
                Ok(profile) => Self::profiled(
                    EnrichedUser { inner: user, company: profile.company, email: profile.email },
                    organizations,
                ),
                Err(failure) => if failure.documented_at(USER_DOCUMENTATION@) {
                    Self::profiled(
                        EnrichedUser { inner: user, company: None, email: None },
                        organizations,
                    )
                } else {
                    Enrichment::Aborted { error: failure.error }
                },
            },
            _ => self,
        }
    }

    /// The state that follows an organization's answer to the question of
    /// membership.
    ///
    /// The first yes settles the author as a member and no further
    /// organization is asked. After a no the next organization is asked; when
    /// the last one has said no, the author is settled as no member. A failed
    /// request stops the run. In a state that does not ask for membership the
    /// answer changes nothing.
    pub open spec fn after_membership(
        self,
        answer: Result<bool, E>,
        organizations: nat,
    ) -> Enrichment<E> {
        match self {
            Enrichment::NeedsMembership { author, org } => match answer {
                Ok(true) => Enrichment::Done(
                    Resolution::Settled { author: Some(author), membership: true },
                ),
                Ok(false) => if org + 1 < organizations {
                    Enrichment::NeedsMembership { author, org: (org + 1) as usize }
                } else {
                    Enrichment::Done(
                        Resolution::Settled { author: Some(author), membership: false },
                    )
                },
                Err(error) => Enrichment::Aborted { error },
            },
            _ => self,
        }
    }

    /// Begins the inquiry into the author of a group of contributions.
    pub fn start(
        user: Option<User>,
        user_overrides: &Vec<UserOverride>,
        users_exclude: &Vec<String>,
        company_orgs: &Vec<String>,
    ) -> (state: Self)
        ensures
            state == Self::begin(user, user_overrides@, users_exclude@, company_orgs@),
    {
        match user {
            None => Enrichment::Done(Resolution::Settled { author: None, membership: false }),
            Some(user) => {
                if is_listed(users_exclude, &user.login) {
                    return Enrichment::Done(Resolution::Excluded);
                }
                match find_override(user_overrides, &user.login) {
                    Some(entry) => {
                        let membership = is_listed(company_orgs, &entry.company);
                        Enrichment::Done(
                            Resolution::Settled {
                                author: Some(
                                    EnrichedUser {
                                        inner: user,
                                        company: Some(entry.company.clone()),
                                        email: None,
                                    },
                                ),
                                membership,
                            },
                        )
                    },
                    None => Enrichment::NeedsProfile { user },
                }
            },
        }
    }

    fn with_profile(author: EnrichedUser, organizations: usize) -> (state: Self)
        ensures
            state == Self::profiled(author, organizations as nat),
    {
        if organizations == 0 {
            Enrichment::Done(Resolution::Settled { author: Some(author), membership: false })
        } else {
            Enrichment::NeedsMembership { author, org: 0 }
        }
    }

    /// Takes the answer to the request for the profile of the author.
    pub fn on_profile(
        self,
        fetched: Result<Profile, Failure<E>>,
        company_orgs: &Vec<String>,
    ) -> (state: Self)
        ensures
            state == self.after_profile(fetched, company_orgs@.len()),
    {
        match self {
            Enrichment::NeedsProfile { user } => match fetched {
                Ok(profile) => Self::with_profile(
                    EnrichedUser { inner: user, company: profile.company, email: profile.email },
                    company_orgs.len(),
                ),
                Err(failure) => {
                    if failure.is_documented_at(USER_DOCUMENTATION) {
                        Self::with_profile(
                            EnrichedUser { inner: user, company: None, email: None },
                            company_orgs.len(),
                        )
                    } else {
                        Enrichment::Aborted { error: failure.error }
                    }
                },
            },
            other => other,
        }
    }

    /// Takes an organization's answer to the question whether the author is
    /// a member.
    pub fn on_membership(self, answer: Result<bool, E>, company_orgs: &Vec<String>) -> (state: Self)
        ensures
            state == self.after_membership(answer, company_orgs@.len()),
    {
        match self {
            Enrichment::NeedsMembership { author, org } => match answer {
                Ok(true) => Enrichment::Done(
                    Resolution::Settled { author: Some(author), membership: true },
                ),
                Ok(false) => {
                    if org < company_orgs.len() && org + 1 < company_orgs.len() {
                        Enrichment::NeedsMembership { author, org: org + 1 }
                    } else {
                        Enrichment::Done(
                            Resolution::Settled { author: Some(author), membership: false },
                        )
                    }
                },
                Err(error) => Enrichment::Aborted { error },
            },
            other => other,
        }
    }
}

/// An author with a configured override is never asked about: the inquiry
/// into such an author is done as it begins, so that neither the profile nor
/// any membership is requested. Unless the author is on the exclude list,
/// the author's company is the configured one, as it is written.
pub proof fn lemma_override_needs_no_request<E>(
    user: User,
    user_overrides: Seq<UserOverride>,
    users_exclude: Seq<String>,
    company_orgs: Seq<String>,
)
    requires
        override_for(user_overrides, user.login@) is Some,
    ensures
        Enrichment::<E>::begin(Some(user), user_overrides, users_exclude, company_orgs) is Done,
        !listed(users_exclude, user.login@) ==> {
            &&& Enrichment::<E>::begin(
                Some(user),
                user_overrides,
                users_exclude,
                company_orgs,
            ) matches Enrichment::Done(Resolution::Settled { author: Some(author), .. })
            &&& author.inner == user
            &&& author.company == Some(override_for(user_overrides, user.login@)->0.company)
            &&& author.email is None
        },
{
}

/// An inquiry that is done stays done: no answer makes it ask again.
pub proof fn lemma_done_stays_done<E>(
    state: Enrichment<E>,
    fetched: Result<Profile, Failure<E>>,
    answer: Result<bool, E>,
    organizations: nat,
)
    requires
        state is Done,
    ensures
        state.after_profile(fetched, organizations) == state,
        state.after_membership(answer, organizations) == state,
{
}

impl<E> Enrichment<E> {
    /// The state after the organizations' answers to the question of
    /// membership, each taken when it came.
    pub open spec fn after_answers(self, answers: Seq<bool>, organizations: nat) -> Enrichment<E>
        decreases answers.len(),
    {
        if answers.len() == 0 {
            self
        } else {
            self.after_membership(Ok(answers.first()), organizations).after_answers(
                answers.drop_first(),
                organizations,
            )
        }
    }
}

/// An author is a member exactly when some organization says so. Where the
/// organizations from position `org` on give `answers`, one each, the author
/// is settled, as a member if one of the answers is a yes and as no member
/// otherwise. Answers that come after the first yes change nothing.
pub proof fn lemma_member_of_any_organization<E>(
    author: EnrichedUser,
    org: usize,
    answers: Seq<bool>,
    organizations: nat,
)
    requires
        organizations <= usize::MAX,
        org < organizations,
        answers.len() == organizations - org,
    ensures
        (Enrichment::<E>::NeedsMembership { author, org }).after_answers(answers, organizations)
            == Enrichment::<E>::Done(
            Resolution::Settled { author: Some(author), membership: answers.contains(true) },
        ),
    decreases answers.len(),
{
    let state = Enrichment::<E>::NeedsMembership { author, org };
    let next = state.after_membership(Ok(answers.first()), organizations);
    let rest = answers.drop_first();
    assert(state.after_answers(answers, organizations) == next.after_answers(rest, organizations));
    if answers.first() {
        assert(answers[0] == true);
        assert(answers.contains(true));
        lemma_settled_ignores_answers::<E>(next, rest, organizations);
    } else {
        assert forall|k: int| 0 <= k < rest.len() implies rest[k] == answers[k + 1] by {}
        if org + 1 < organizations {
            lemma_member_of_any_organization::<E>(author, (org + 1) as usize, rest, organizations);
            if rest.contains(true) {
                let k = choose|k: int| 0 <= k < rest.len() && rest[k] == true;
                assert(answers[k + 1] == true);
                assert(answers.contains(true));
            }
            if answers.contains(true) {
                let k = choose|k: int| 0 <= k < answers.len() && answers[k] == true;
                assert(rest[k - 1] == true);
                assert(rest.contains(true));
            }
        } else {
            assert(rest.len() == 0);
            assert(next.after_answers(rest, organizations) == next);
            if answers.contains(true) {
                let k = choose|k: int| 0 <= k < answers.len() && answers[k] == true;
                assert(k == 0);
            }
        }
    }
}

/// An inquiry that is done is not changed by any answers.
proof fn lemma_settled_ignores_answers<E>(
    state: Enrichment<E>,
    answers: Seq<bool>,
    organizations: nat,
)
    requires
        state is Done,
    ensures
        state.after_answers(answers, organizations) == state,
    decreases answers.len(),
{
    if answers.len() > 0 {
        lemma_settled_ignores_answers::<E>(state, answers.drop_first(), organizations);
    }
}

} // verus!
