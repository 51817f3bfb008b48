use github_contributions::config;
use github_contributions::contribution::{GithubContribution, Issue};
use github_contributions::github_contribution_collector::collect::compile_rules;
use github_contributions::github_contribution_collector::repo_regex::{ExcludeRegex, RepoRegex};
use github_contributions::models::{EnrichedUser, Repo, Timestamp, User};
use github_contributions::Contribution;

fn configured(name: &str, companies: &[&str]) -> config::Repo {
    config::Repo {
        repo: Repo::new("acme".to_string(), name.to_string()),
        companies_exclude: companies.iter().map(|c| c.to_string()).collect(),
    }
}

fn issue_on(name: &str) -> Contribution {
    Contribution::new(
        "acme".to_string(),
        name.to_string(),
        GithubContribution::Issue(Issue {
            id: 1,
            user: User { id: 7, login: "alice".to_string() },
            created_at: Timestamp { secs: 1, nanos: 0 },
        }),
    )
}

fn author(company: Option<&str>, email: Option<&str>) -> EnrichedUser {
    EnrichedUser {
        inner: User { id: 7, login: "alice".to_string() },
        company: company.map(|c| c.to_string()),
        email: email.map(|e| e.to_string()),
    }
}

#[test]
fn rule_keeps_the_patterns_of_its_company() {
    let rule = ExcludeRegex::new(&"Acme".to_string()).unwrap();
    assert_eq!(rule.company.as_str(), "(?i)Acme");
    assert_eq!(rule.email.as_str(), "@(\\w+\\.)*(?i)Acme(?-i)\\.");
}

#[test]
fn rule_escapes_what_the_engine_would_read_as_syntax() {
    let rule = ExcludeRegex::new(&"a.b (c)".to_string()).unwrap();
    assert_eq!(rule.company.as_str(), "(?i)a\\.b \\(c\\)");
    assert_eq!(rule.email.as_str(), "@(\\w+\\.)*(?i)a\\.b \\(c\\)(?-i)\\.");
    let every = ExcludeRegex::new(&"\\.+*?()|[]{}^$#&-~".to_string()).unwrap();
    assert_eq!(
        every.company.as_str(),
        "(?i)\\\\\\.\\+\\*\\?\\(\\)\\|\\[\\]\\{\\}\\^\\$\\#\\&\\-\\~"
    );
    let none = ExcludeRegex::new(&"%/!\"e_ ".to_string()).unwrap();
    assert_eq!(none.company.as_str(), "(?i)%/!\"e_ ");
}

#[test]
fn company_match_ignores_letter_case() {
    let rules = RepoRegex::new(&configured("widget", &["Acme"])).unwrap();
    let on_widget = issue_on("widget");
    assert!(!rules.exclude(&on_widget, &author(Some("ACME Corp"), None)));
    assert!(!rules.exclude(&on_widget, &author(Some("acme"), None)));
    assert!(!rules.exclude(&on_widget, &author(Some("Works at AcMe, Inc."), None)));
    assert!(rules.exclude(&on_widget, &author(Some("Apex Corp"), None)));
    assert!(rules.exclude(&on_widget, &author(None, None)));
}

#[test]
fn email_match_needs_the_company_between_boundaries() {
    let rules = RepoRegex::new(&configured("widget", &["Acme"])).unwrap();
    let on_widget = issue_on("widget");
    assert!(!rules.exclude(&on_widget, &author(None, Some("user@mail.acme.com"))));
    assert!(!rules.exclude(&on_widget, &author(None, Some("user@acme.com"))));
    assert!(!rules.exclude(&on_widget, &author(None, Some("user@a.b.ACME.co.uk"))));
    assert!(rules.exclude(&on_widget, &author(None, Some("user@notacme.com"))));
    assert!(rules.exclude(&on_widget, &author(None, Some("user@acmecorp.com"))));
    assert!(rules.exclude(&on_widget, &author(None, Some("acme.user@example.com"))));
    assert!(rules.exclude(&on_widget, &author(None, Some("user@acme"))));
}

#[test]
fn company_name_is_matched_as_text_not_as_pattern() {
    let rules = RepoRegex::new(&configured("widget", &["a.b"])).unwrap();
    let on_widget = issue_on("widget");
    assert!(!rules.exclude(&on_widget, &author(Some("the a.b company"), None)));
    assert!(rules.exclude(&on_widget, &author(Some("the axb company"), None)));
}

#[test]
fn rules_of_another_repository_do_not_apply() {
    let rules = RepoRegex::new(&configured("widget", &["Acme"])).unwrap();
    assert!(rules.exclude(&issue_on("gadget"), &author(Some("Acme Corp"), Some("a@acme.com"))));
    assert!(!rules.exclude(&issue_on("widget"), &author(Some("Acme Corp"), Some("a@acme.com"))));
}

#[test]
fn any_rule_of_the_repository_may_match() {
    let rules = RepoRegex::new(&configured("widget", &["Acme", "Initech", "Globex"])).unwrap();
    assert_eq!(rules.companies_exclude.len(), 3);
    let on_widget = issue_on("widget");
    assert!(!rules.exclude(&on_widget, &author(Some("globex"), None)));
    assert!(!rules.exclude(&on_widget, &author(Some("none"), Some("x@initech.io"))));
    assert!(rules.exclude(&on_widget, &author(Some("Umbrella"), Some("x@umbrella.io"))));
}

#[test]
fn repository_without_rules_keeps_everything() {
    let rules = RepoRegex::new(&configured("widget", &[])).unwrap();
    assert!(rules.companies_exclude.is_empty());
    assert!(rules.exclude(&issue_on("widget"), &author(Some("Acme Corp"), Some("a@acme.com"))));
    assert!(rules.retains(&issue_on("widget"), &None, &None));
}

#[test]
fn retains_agrees_with_exclude() {
    let rules = RepoRegex::new(&configured("widget", &["Acme"])).unwrap();
    let on_widget = issue_on("widget");
    assert!(!rules.retains(&on_widget, &Some("Acme".to_string()), &None));
    assert!(!rules.retains(&on_widget, &None, &Some("x@acme.org".to_string())));
    assert!(rules.retains(&on_widget, &None, &None));
}

#[test]
fn rules_compile_for_every_configured_repository() {
    let compiled = compile_rules(&vec![
        configured("widget", &["Acme"]),
        configured("gadget", &[]),
        configured("sprocket", &["Initech", "Globex"]),
    ])
    .unwrap();
    assert_eq!(compiled.len(), 3);
    assert_eq!(compiled[0].repo.full_name(), "acme/widget");
    assert_eq!(compiled[0].companies_exclude.len(), 1);
    assert_eq!(compiled[1].repo.full_name(), "acme/gadget");
    assert_eq!(compiled[1].companies_exclude.len(), 0);
    assert_eq!(compiled[2].companies_exclude.len(), 2);
    assert_eq!(compiled[2].companies_exclude[1].company.as_str(), "(?i)Globex");
    assert!(compile_rules(&Vec::new()).unwrap().is_empty());
}

#[test]
fn a_company_name_too_large_for_the_engine_is_refused() {
    let huge = "a".repeat(600_000);
    let refused = ExcludeRegex::new(&huge);
    assert!(refused.is_err());
    assert_eq!(refused.err().unwrap().company.len(), 600_000);
}

#[test]
fn the_first_refused_company_of_a_repository_is_reported() {
    let huge = "b".repeat(600_000);
    let rules = RepoRegex::new(&configured("widget", &["Acme", &huge, "Globex"]));
    assert_eq!(rules.err().unwrap().company, huge);
}

#[test]
fn one_refused_company_fails_the_rules_of_the_run() {
    let huge = "c".repeat(600_000);
    let compiled = compile_rules(&vec![configured("gadget", &[]), configured("widget", &[&huge])]);
    assert_eq!(compiled.err().unwrap().company, huge);
}

#[test]
fn refusal_names_the_company_in_words() {
    let refused = ExcludeRegex::new(&"d".repeat(600_000)).err().unwrap();
    assert!(refused
        .message()
        .starts_with("no exclusion pattern can be made of the company name dddd"));
    assert_eq!(refused.message().len(), 53 + 600_000);
}
