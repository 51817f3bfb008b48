use github_contributions::config;
use github_contributions::contribution::{GithubContribution, Issue, Review};
use github_contributions::github_contribution_collector::collect::compile_rules;
use github_contributions::github_contribution_collector::enrichment::{
    Enrichment, Profile, Resolution,
};
use github_contributions::github_contribution_collector::grouping::{
    contributions_by_repo, contributions_by_user,
};
use github_contributions::github_contribution_collector::policy::{
    filter_contributions, output_for, process_contributions, SettledGroup,
};
use github_contributions::github_contribution_collector::repo_regex::RepoRegex;
use github_contributions::github_contribution_collector::report::{all_contributions, tally};
use github_contributions::github_contribution_collector::{Failure, Params};
use github_contributions::models::commit::{Author, Commit, CommitObject, EnrichedCommit};
use github_contributions::models::{EnrichedUser, Repo, Timestamp, User};
use github_contributions::Contribution;

const MAY: i64 = 1_619_827_200;
const AUGUST: i64 = 1_627_776_000;

fn at(secs: i64) -> Timestamp {
    Timestamp { secs, nanos: 0 }
}

fn window() -> Params {
    Params { since: Some(at(MAY)), until: Some(at(AUGUST)) }
}

fn user(id: u64, login: &str) -> User {
    User { id, login: login.to_string() }
}

fn issue(repo: &str, id: u64, author: User, created: i64) -> Contribution {
    Contribution::new(
        "acme".to_string(),
        repo.to_string(),
        GithubContribution::Issue(Issue { id, user: author, created_at: at(created) }),
    )
}

fn review(repo: &str, id: u64, author: User, submitted: Option<i64>) -> Contribution {
    Contribution::new(
        "acme".to_string(),
        repo.to_string(),
        GithubContribution::Review(Review { id, user: author, submitted_at: submitted.map(at) }),
    )
}

fn commit(repo: &str, sha: &str, author: Option<User>, date: i64) -> Contribution {
    Contribution::new(
        "acme".to_string(),
        repo.to_string(),
        GithubContribution::Commit(EnrichedCommit {
            inner: Commit { sha: sha.to_string(), author },
            commit: CommitObject {
                author: Author {
                    name: "Bob".to_string(),
                    email: "bob@example.org".to_string(),
                    date: at(date),
                },
            },
        }),
    )
}

fn rules(repos: &[(&str, &[&str])]) -> Vec<RepoRegex> {
    let configured: Vec<config::Repo> = repos
        .iter()
        .map(|(name, companies)| config::Repo {
            repo: Repo::new("acme".to_string(), name.to_string()),
            companies_exclude: companies.iter().map(|c| c.to_string()).collect(),
        })
        .collect();
    compile_rules(&configured).unwrap()
}

fn enriched(id: u64, login: &str, company: Option<&str>, email: Option<&str>) -> EnrichedUser {
    EnrichedUser {
        inner: user(id, login),
        company: company.map(|c| c.to_string()),
        email: email.map(|e| e.to_string()),
    }
}

fn label(contribution: &Contribution) -> String {
    match &contribution.contribution {
        GithubContribution::Issue(i) => format!("issue {}", i.id),
        GithubContribution::Review(r) => format!("review {}", r.id),
        GithubContribution::Commit(c) => format!("commit {}", c.inner.sha),
    }
}

fn labels(contributions: &Vec<Contribution>) -> Vec<String> {
    contributions.iter().map(label).collect()
}

#[test]
fn date_filter_keeps_since_drops_until_keeps_untimed() {
    let alice = || user(7, "alice");
    let kept = filter_contributions(
        vec![
            issue("widget", 1, alice(), MAY),
            issue("widget", 2, alice(), AUGUST),
            review("widget", 3, alice(), None),
            issue("widget", 4, alice(), MAY - 1),
            review("widget", 5, alice(), Some(AUGUST - 1)),
            commit("widget", "c6", Some(alice()), AUGUST + 1),
        ],
        &Some(enriched(7, "alice", None, None)),
        &Vec::new(),
        &window(),
    );
    assert_eq!(labels(&kept), vec!["issue 1", "review 3", "review 5"]);
}

#[test]
fn date_filter_applies_without_author_and_without_rules() {
    let kept = filter_contributions(
        vec![
            commit("widget", "c1", None, MAY - 1),
            commit("widget", "c2", None, MAY),
            commit("widget", "c3", None, AUGUST),
        ],
        &None,
        &Vec::new(),
        &window(),
    );
    assert_eq!(labels(&kept), vec!["commit c2"]);
}

#[test]
fn exclusion_rules_only_touch_their_own_repository() {
    let alice = || user(7, "alice");
    let kept = filter_contributions(
        vec![
            issue("widget", 1, alice(), MAY),
            issue("gadget", 2, alice(), MAY),
            review("widget", 3, alice(), None),
            commit("sprocket", "c4", Some(alice()), MAY),
        ],
        &Some(enriched(7, "alice", Some("Acme Corp"), None)),
        &rules(&[("widget", &["Acme"]), ("gadget", &["Initech"]), ("sprocket", &[])]),
        &Params { since: None, until: None },
    );
    assert_eq!(labels(&kept), vec!["issue 2", "commit c4"]);
}

#[test]
fn exclusion_by_email_domain() {
    let kept = filter_contributions(
        vec![issue("widget", 1, user(7, "alice"), MAY), issue("gadget", 2, user(7, "alice"), MAY)],
        &Some(enriched(7, "alice", None, Some("alice@mail.acme.com"))),
        &rules(&[("widget", &["Acme"])]),
        &Params { since: None, until: None },
    );
    assert_eq!(labels(&kept), vec!["issue 2"]);
    let kept = filter_contributions(
        vec![issue("widget", 1, user(7, "alice"), MAY)],
        &Some(enriched(7, "alice", None, Some("alice@notacme.com"))),
        &rules(&[("widget", &["Acme"])]),
        &Params { since: None, until: None },
    );
    assert_eq!(labels(&kept), vec!["issue 1"]);
}

#[test]
fn contributions_without_author_match_no_rule() {
    let kept = filter_contributions(
        vec![commit("widget", "c1", None, MAY)],
        &None,
        &rules(&[("widget", &["Acme", "Bob", "example"])]),
        &window(),
    );
    assert_eq!(labels(&kept), vec!["commit c1"]);
}

#[test]
fn a_repository_configured_twice_applies_both_rule_sets() {
    let kept = filter_contributions(
        vec![issue("widget", 1, user(7, "alice"), MAY)],
        &Some(enriched(7, "alice", Some("Globex"), None)),
        &rules(&[("widget", &["Acme"]), ("widget", &["Globex"])]),
        &window(),
    );
    assert!(kept.is_empty());
}

#[test]
fn excluded_author_has_no_record() {
    let group = SettledGroup {
        contributions: vec![issue("widget", 1, user(7, "alice"), MAY)],
        resolution: Resolution::Excluded,
    };
    assert!(output_for(group, &Vec::new(), &window()).is_none());
}

#[test]
fn author_with_nothing_left_has_no_record() {
    let group = SettledGroup {
        contributions: vec![
            issue("widget", 1, user(7, "alice"), MAY - 10),
            issue("widget", 2, user(7, "alice"), AUGUST + 10),
        ],
        resolution: Resolution::Settled {
            author: Some(enriched(7, "alice", None, None)),
            membership: true,
        },
    };
    assert!(output_for(group, &Vec::new(), &window()).is_none());
    let nothing = SettledGroup {
        contributions: Vec::new(),
        resolution: Resolution::Settled { author: None, membership: false },
    };
    assert!(output_for(nothing, &Vec::new(), &window()).is_none());
}

#[test]
fn record_names_author_membership_and_what_is_left() {
    let group = SettledGroup {
        contributions: vec![
            issue("widget", 1, user(7, "alice"), MAY - 10),
            issue("widget", 2, user(7, "alice"), MAY + 10),
            review("gadget", 3, user(7, "alice"), None),
        ],
        resolution: Resolution::Settled {
            author: Some(enriched(7, "alice", Some("Initech"), Some("alice@initech.io"))),
            membership: true,
        },
    };
    let record = output_for(group, &rules(&[("widget", &["Acme"])]), &window()).unwrap();
    assert!(record.membership);
    let author = record.user.unwrap();
    assert_eq!(author.inner.id, 7);
    assert_eq!(author.company, Some("Initech".to_string()));
    assert_eq!(author.email, Some("alice@initech.io".to_string()));
    assert_eq!(labels(&record.contributions), vec!["issue 2", "review 3"]);
}

#[test]
fn records_follow_the_groups_and_none_is_empty() {
    let groups = vec![
        SettledGroup {
            contributions: vec![issue("widget", 1, user(1, "a"), MAY)],
            resolution: Resolution::Settled {
                author: Some(enriched(1, "a", None, None)),
                membership: false,
            },
        },
        SettledGroup {
            contributions: vec![issue("widget", 2, user(2, "b"), MAY)],
            resolution: Resolution::Excluded,
        },
        SettledGroup {
            contributions: vec![issue("widget", 3, user(3, "c"), MAY)],
            resolution: Resolution::Settled {
                author: Some(enriched(3, "c", Some("acme"), None)),
                membership: false,
            },
        },
        SettledGroup {
            contributions: vec![commit("widget", "c4", None, MAY), commit("widget", "c5", None, 0)],
            resolution: Resolution::Settled { author: None, membership: false },
        },
        SettledGroup {
            contributions: vec![issue("gadget", 6, user(5, "e"), MAY)],
            resolution: Resolution::Settled {
                author: Some(enriched(5, "e", Some("acme"), None)),
                membership: true,
            },
        },
    ];
    let outputs = process_contributions(groups, &rules(&[("widget", &["Acme"])]), &window());
    assert_eq!(outputs.len(), 3);
    assert_eq!(outputs[0].user.as_ref().map(|u| u.inner.id), Some(1));
    assert_eq!(labels(&outputs[0].contributions), vec!["issue 1"]);
    assert!(outputs[1].user.is_none());
    assert_eq!(labels(&outputs[1].contributions), vec!["commit c4"]);
    assert_eq!(outputs[2].user.as_ref().map(|u| u.inner.id), Some(5));
    assert!(outputs[2].membership);
    for record in outputs.iter() {
        assert!(!record.contributions.is_empty());
    }
    assert!(process_contributions(Vec::new(), &Vec::new(), &window()).is_empty());
}

fn settle(
    user: Option<User>,
    profile: Result<Profile, Failure<String>>,
    memberships: &[bool],
    orgs: &Vec<String>,
) -> Resolution {
    let mut state: Enrichment<String> = Enrichment::start(user, &Vec::new(), &Vec::new(), orgs);
    let mut profile = Some(profile);
    let mut asked = 0;
    loop {
        state = match state {
            Enrichment::NeedsProfile { .. } => state.on_profile(profile.take().unwrap(), orgs),
            Enrichment::NeedsMembership { org, .. } => {
                assert_eq!(org, asked);
                asked += 1;
                state.on_membership(Ok(memberships[org]), orgs)
            }
            Enrichment::Done(resolution) => return resolution,
            Enrichment::Aborted { error } => panic!("aborted: {}", error),
        };
    }
}

#[test]
fn excluded_company_leaves_no_entry_for_its_contributor() {
    let orgs = vec!["acme".to_string()];
    let repos = rules(&[("widget", &["Acme"])]);
    let all = vec![
        issue("widget", 1, user(7, "alice"), MAY + 100),
        issue("widget", 2, user(7, "alice"), MAY + 200),
        review("widget", 3, user(7, "alice"), Some(MAY + 300)),
    ];
    let mut settled = Vec::new();
    for group in contributions_by_user(all) {
        let resolution = settle(
            group.user,
            Ok(Profile { company: Some("Acme Corp".to_string()), email: None }),
            &[false],
            &orgs,
        );
        settled.push(SettledGroup { contributions: group.contributions, resolution });
    }
    assert_eq!(settled.len(), 1);
    let outputs = process_contributions(settled, &repos, &window());
    assert!(outputs.is_empty());
    let views = contributions_by_repo(all_contributions(&outputs));
    assert!(views.iter().all(|v| v.repo.full_name() != "acme/widget"));
    let counts = tally(&all_contributions(&outputs));
    assert_eq!((counts.issues, counts.reviews, counts.commits), (0, 0, 0));
}

#[test]
fn commit_without_account_is_reported_without_author() {
    let orgs = vec!["acme".to_string()];
    let repos = rules(&[("widget", &["Acme"])]);
    let all = vec![commit("widget", "c1", None, MAY + 100)];
    let mut settled = Vec::new();
    for group in contributions_by_user(all) {
        let resolution = settle(
            group.user,
            Err(Failure { documentation_url: None, error: "never asked".to_string() }),
            &[],
            &orgs,
        );
        settled.push(SettledGroup { contributions: group.contributions, resolution });
    }
    let outputs = process_contributions(settled, &repos, &window());
    assert_eq!(outputs.len(), 1);
    assert!(outputs[0].user.is_none());
    assert!(!outputs[0].membership);
    assert_eq!(labels(&outputs[0].contributions), vec!["commit c1"]);
}
