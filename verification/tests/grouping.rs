use github_contributions::contribution::{GithubContribution, Issue, Review};
use github_contributions::github_contribution_collector::grouping::{
    contributions_by_repo, contributions_by_user,
};
use github_contributions::models::commit::{Author, Commit, CommitObject, EnrichedCommit};
use github_contributions::models::{Repo, Timestamp, User};
use github_contributions::Contribution;

fn issue(repo: &str, id: u64, author: u64, login: &str) -> Contribution {
    Contribution::new(
        "acme".to_string(),
        repo.to_string(),
        GithubContribution::Issue(Issue {
            id,
            user: User { id: author, login: login.to_string() },
            created_at: Timestamp { secs: id as i64, nanos: 0 },
        }),
    )
}

fn review(repo: &str, id: u64, author: u64, login: &str) -> Contribution {
    Contribution::new(
        "acme".to_string(),
        repo.to_string(),
        GithubContribution::Review(Review {
            id,
            user: User { id: author, login: login.to_string() },
            submitted_at: None,
        }),
    )
}

fn commit(repo: &str, sha: &str, author: Option<(u64, &str)>) -> Contribution {
    Contribution::new(
        "acme".to_string(),
        repo.to_string(),
        GithubContribution::Commit(EnrichedCommit {
            inner: Commit {
                sha: sha.to_string(),
                author: author.map(|(id, login)| User { id, login: login.to_string() }),
            },
            commit: CommitObject {
                author: Author {
                    name: "someone".to_string(),
                    email: "someone@example.org".to_string(),
                    date: Timestamp { secs: 5, nanos: 0 },
                },
            },
        }),
    )
}

fn label(contribution: &Contribution) -> String {
    match &contribution.contribution {
        GithubContribution::Issue(i) => format!("issue {}", i.id),
        GithubContribution::Review(r) => format!("review {}", r.id),
        GithubContribution::Commit(c) => format!("commit {}", c.inner.sha),
    }
}

fn labels(contributions: &Vec<Contribution>) -> Vec<String> {
    contributions.iter().map(label).collect()
}

#[test]
fn nothing_groups_to_nothing() {
    assert!(contributions_by_user(Vec::new()).is_empty());
    assert!(contributions_by_repo(Vec::new()).is_empty());
}

#[test]
fn contributions_of_one_author_share_one_group() {
    let groups = contributions_by_user(vec![
        issue("widget", 1, 7, "alice"),
        issue("widget", 2, 8, "bob"),
        review("gadget", 3, 7, "alice"),
        commit("widget", "c1", Some((8, "bob"))),
        commit("widget", "c2", Some((7, "alice"))),
    ]);
    assert_eq!(groups.len(), 2);
    assert_eq!(groups[0].user.as_ref().map(|u| u.id), Some(7));
    assert_eq!(labels(&groups[0].contributions), vec!["issue 1", "review 3", "commit c2"]);
    assert_eq!(groups[1].user.as_ref().map(|u| u.id), Some(8));
    assert_eq!(labels(&groups[1].contributions), vec!["issue 2", "commit c1"]);
}

#[test]
fn authors_are_told_apart_by_identifier_not_by_login() {
    let groups = contributions_by_user(vec![
        issue("widget", 1, 7, "alice"),
        issue("widget", 2, 7, "alice-renamed"),
        issue("widget", 3, 9, "alice"),
    ]);
    assert_eq!(groups.len(), 2);
    assert_eq!(labels(&groups[0].contributions), vec!["issue 1", "issue 2"]);
    assert_eq!(groups[0].user.as_ref().map(|u| u.login.clone()), Some("alice".to_string()));
    assert_eq!(labels(&groups[1].contributions), vec!["issue 3"]);
    assert_eq!(groups[1].user.as_ref().map(|u| u.id), Some(9));
}

#[test]
fn contributions_without_author_share_a_single_group() {
    let groups = contributions_by_user(vec![
        commit("widget", "c1", None),
        issue("widget", 1, 7, "alice"),
        commit("gadget", "c2", None),
        commit("widget", "c3", Some((7, "alice"))),
        commit("widget", "c4", None),
    ]);
    assert_eq!(groups.len(), 2);
    assert!(groups[0].user.is_none());
    assert_eq!(labels(&groups[0].contributions), vec!["commit c1", "commit c2", "commit c4"]);
    assert_eq!(groups[1].user.as_ref().map(|u| u.id), Some(7));
    assert_eq!(labels(&groups[1].contributions), vec!["issue 1", "commit c3"]);
}

#[test]
fn groups_stand_in_order_of_first_arrival() {
    let groups = contributions_by_user(vec![
        issue("widget", 1, 30, "c"),
        issue("widget", 2, 10, "a"),
        issue("widget", 3, 20, "b"),
        issue("widget", 4, 10, "a"),
        issue("widget", 5, 30, "c"),
    ]);
    let ids: Vec<Option<u64>> = groups.iter().map(|g| g.user.as_ref().map(|u| u.id)).collect();
    assert_eq!(ids, vec![Some(30), Some(10), Some(20)]);
    let sizes: Vec<usize> = groups.iter().map(|g| g.contributions.len()).collect();
    assert_eq!(sizes, vec![2, 2, 1]);
}

#[test]
fn every_contribution_lands_in_exactly_one_group() {
    let groups = contributions_by_user(vec![
        issue("widget", 1, 1, "a"),
        issue("widget", 2, 2, "b"),
        commit("widget", "c1", None),
        issue("widget", 3, 1, "a"),
        review("widget", 4, 3, "c"),
        commit("widget", "c2", None),
    ]);
    let mut seen: Vec<String> = groups.iter().flat_map(|g| labels(&g.contributions)).collect();
    seen.sort();
    assert_eq!(
        seen,
        vec!["commit c1", "commit c2", "issue 1", "issue 2", "issue 3", "review 4"]
    );
    for group in groups.iter() {
        assert!(!group.contributions.is_empty());
        let key = group.user.as_ref().map(|u| u.id);
        for contribution in group.contributions.iter() {
            assert_eq!(contribution.user().map(|u| u.id), key);
        }
    }
}

#[test]
fn contributions_regroup_by_repository() {
    let views = contributions_by_repo(vec![
        issue("widget", 1, 7, "alice"),
        issue("gadget", 2, 8, "bob"),
        review("widget", 3, 8, "bob"),
        commit("gadget", "c1", None),
        commit("sprocket", "c2", Some((7, "alice"))),
    ]);
    assert_eq!(views.len(), 3);
    assert_eq!(views[0].repo, Repo::new("acme".to_string(), "widget".to_string()));
    assert_eq!(labels(&views[0].contributions), vec!["issue 1", "review 3"]);
    assert_eq!(views[1].repo, Repo::new("acme".to_string(), "gadget".to_string()));
    assert_eq!(labels(&views[1].contributions), vec!["issue 2", "commit c1"]);
    assert_eq!(views[2].repo, Repo::new("acme".to_string(), "sprocket".to_string()));
    assert_eq!(labels(&views[2].contributions), vec!["commit c2"]);
}

#[test]
fn repositories_of_different_organizations_are_different() {
    let views = contributions_by_repo(vec![
        issue("widget", 1, 7, "alice"),
        Contribution::new(
            "other".to_string(),
            "widget".to_string(),
            GithubContribution::Issue(Issue {
                id: 2,
                user: User { id: 7, login: "alice".to_string() },
                created_at: Timestamp { secs: 2, nanos: 0 },
            }),
        ),
    ]);
    assert_eq!(views.len(), 2);
    assert_eq!(views[0].repo.full_name(), "acme/widget");
    assert_eq!(views[1].repo.full_name(), "other/widget");
}
