//! Per-repository exclusion rules: for each company that a repository
//! excludes, one pattern for an author's company text and one for the domain
//! of an author's e-mail address.

use crate::config;
use crate::models::{EnrichedUser, Repo};
use crate::Contribution;
use regex::Regex;
use vstd::prelude::*;
use vstd::string::*;

verus! {

#[verifier::external_type_specification]
#[verifier::external_body]
pub struct ExRegex(regex::Regex);

#[verifier::external_type_specification]
#[verifier::external_body]
pub struct ExRegexError(regex::Error);

/// Whether the expression engine accepts `pattern`.
pub uninterp spec fn regex_compiles(pattern: Seq<char>) -> bool;

/// Whether the expression that the engine makes of `pattern` matches
/// somewhere in `haystack`.
pub uninterp spec fn regex_matches(pattern: Seq<char>, haystack: Seq<char>) -> bool;

/// Whether the compiled expression `re` matches somewhere in `haystack`.
pub uninterp spec fn regex_finds(re: Regex, haystack: Seq<char>) -> bool;

/// The characters that mean something to the expression engine.
pub open spec fn is_meta_character(c: char) -> bool {
    c == '\\' || c == '.' || c == '+' || c == '*' || c == '?' || c == '(' || c == ')' || c == '|'
        || c == '[' || c == ']' || c == '{' || c == '}' || c == '^' || c == '$' || c == '#'
        || c == '&' || c == '-' || c == '~'
}

/// `text` with a backslash put before each of its meta characters, so that
/// as a pattern it matches `text` itself and nothing else.
pub open spec fn escaped(text: Seq<char>) -> Seq<char>
    decreases text.len(),
{
    if text.len() == 0 {
        Seq::empty()
    } else if is_meta_character(text.last()) {
        escaped(text.drop_last()).push('\\').push(text.last())
    } else {
        escaped(text.drop_last()).push(text.last())
    }
}

/// The pattern for an author's company text: the company's name anywhere in
/// it, in any letter case.
pub open spec fn company_pattern(company: Seq<char>) -> Seq<char> {
    "(?i)"@ + escaped(company)
}

/// The pattern for an author's e-mail address: after the `@`, any number of
/// labels that each end in a dot, then the company's name in any letter case,
/// then a dot. The name therefore stands between an `@` or a `.` and a `.`.
pub open spec fn email_pattern(company: Seq<char>) -> Seq<char> {
    "@(\\w+\\.)*(?i)"@ + escaped(company) + "(?-i)\\."@
}

/// Calls `regex::escape`, which copies `text` and puts a backslash before
/// each meta character of the engine's fixed list.
#[verifier::external_body]
fn escape(text: &str) -> (quoted: String)
    ensures
        quoted@ == escaped(text@),
{
    regex::escape(text)
}

/// Calls `regex::Regex::new`, which compiles `pattern` with the engine's
/// default settings. Whether the engine accepts a pattern, and what the
/// expression made of it matches, depends on the pattern's text alone.
#[verifier::external_body]
fn compile(pattern: &str) -> (compiled: Result<Regex, regex::Error>)
    ensures
        compiled is Ok <==> regex_compiles(pattern@),
        compiled matches Ok(re) ==> forall|haystack: Seq<char>| #[trigger]
            regex_finds(re, haystack) == regex_matches(pattern@, haystack),
{
    Regex::new(pattern)
}

/// Calls `regex::Regex::is_match`: whether the expression matches anywhere
/// in `haystack`.
#[verifier::external_body]
fn is_match(re: &Regex, haystack: &str) -> (found: bool)
    ensures
        found == regex_finds(*re, haystack@),
{
    re.is_match(haystack)
}

/// The two compiled patterns of one excluded company.
#[derive(Debug)]
pub struct ExcludeRegex {
    pub company: Regex,
    pub email: Regex,
}

/// A configured company name for which the engine refused a pattern.
#[derive(Debug)]
pub struct PatternError {
    pub company: String,
}

/// A tracked repository with its compiled exclusion rules.
#[derive(Debug)]
pub struct RepoRegex {
    pub repo: Repo,
    pub companies_exclude: Vec<ExcludeRegex>,
}

/// Both patterns of `company` are accepted by the engine.
pub open spec fn rule_compiles(company: Seq<char>) -> bool {
    regex_compiles(company_pattern(company)) && regex_compiles(email_pattern(company))
}

/// The patterns of every company that the repository excludes are accepted
/// by the engine.
pub open spec fn compiles_all(configured: config::Repo) -> bool {
    forall|i: int|
        0 <= i < configured.companies_exclude@.len() ==> rule_compiles(
            #[trigger] configured.companies_exclude@[i]@,
        )
}

/// `company` is the first company, in the configured order, of which the
/// engine refuses a pattern.
pub open spec fn is_first_refused(configured: config::Repo, company: String) -> bool {
    exists|i: int|
        0 <= i < configured.companies_exclude@.len() && company
            == #[trigger] configured.companies_exclude@[i] && !rule_compiles(company@)
            && forall|j: int|
            0 <= j < i ==> rule_compiles(#[trigger] configured.companies_exclude@[j]@)
}

/// The patterns of the company named `name` match an author's company text
/// or e-mail address.
pub open spec fn company_hits(
    name: Seq<char>,
    company: Option<String>,
    email: Option<String>,
) -> bool {
    ||| company matches Some(text) && regex_matches(company_pattern(name), text@)
    ||| email matches Some(address) && regex_matches(email_pattern(name), address@)
}

/// `re` matches the text, where there is one.
pub open spec fn matches_text(re: Regex, text: Option<String>) -> bool {
    text matches Some(t) && regex_finds(re, t@)
}

/// `re` matches what the expression made of `pattern` matches.
pub open spec fn is_compiled_from(re: Regex, pattern: Seq<char>) -> bool {
    forall|haystack: Seq<char>| #[trigger]
        regex_finds(re, haystack) == regex_matches(pattern, haystack)
}

impl PatternError {
    /// The refusal in words.
    pub fn message(&self) -> (text: String)
        ensures
            text@ == "no exclusion pattern can be made of the company name "@ + self.company@,
    {
        String::from_str("no exclusion pattern can be made of the company name ").concat(
            self.company.as_str(),
        )
    }
}

impl ExcludeRegex {
    /// The rule holds the two patterns of `company`, compiled.
    pub open spec fn is_rule_for(self, company: Seq<char>) -> bool {
        &&& is_compiled_from(self.company, company_pattern(company))
        &&& is_compiled_from(self.email, email_pattern(company))
    }

    /// The rule matches an author's company text or e-mail address.
    pub open spec fn hits(self, company: Option<String>, email: Option<String>) -> bool {
        matches_text(self.company, company) || matches_text(self.email, email)
    }

    /// Compiles the two patterns of `company`.
    pub fn new(company: &String) -> (built: Result<ExcludeRegex, PatternError>)
        ensures
            built is Ok <==> rule_compiles(company@),
            built matches Ok(rule) ==> rule.is_rule_for(company@),
            built matches Err(refused) ==> refused.company == *company,
    {
        let quoted = escape(company.as_str());
        let company_text = String::from_str("(?i)").concat(quoted.as_str());
        let email_text = String::from_str("@(\\w+\\.)*(?i)").concat(quoted.as_str()).concat(
            "(?-i)\\.",
        );
        match compile(company_text.as_str()) {
            Ok(company_re) => match compile(email_text.as_str()) {
                Ok(email_re) => Ok(ExcludeRegex { company: company_re, email: email_re }),
                Err(_) => Err(PatternError { company: company.clone() }),
            },
            Err(_) => Err(PatternError { company: company.clone() }),
        }
    }

    fn test(&self, company: &Option<String>, email: &Option<String>) -> (hit: bool)
        ensures
            hit == self.hits(*company, *email),
    {
        let by_company = match company {
            Some(text) => is_match(&self.company, text.as_str()),
            None => false,
        };
        if by_company {
            return true;
        }
        match email {
            Some(text) => is_match(&self.email, text.as_str()),
            None => false,
        }
    }
}

impl RepoRegex {
    /// The rules are those of the configured repository, one per excluded
    /// company and in the configured order.
    pub open spec fn is_built_from(self, configured: config::Repo) -> bool {
        &&& self.repo == configured.repo
        &&& self.companies_exclude@.len() == configured.companies_exclude@.len()
        &&& forall|i: int|
            0 <= i < self.companies_exclude@.len() ==> (
            #[trigger] self.companies_exclude@[i]).is_rule_for(configured.companies_exclude@[i]@)
    }

    /// Some rule of this repository matches the author's company text or
    /// e-mail address.
    pub open spec fn hits(self, company: Option<String>, email: Option<String>) -> bool {
        exists|i: int|
            0 <= i < self.companies_exclude@.len() && (#[trigger] self.companies_exclude@[i]).hits(
                company,
                email,
            )
    }

    /// The contribution stays: it was made to another repository, or no rule
    /// of this one matches its author.
    pub open spec fn keeps(
        self,
        contribution: Contribution,
        company: Option<String>,
        email: Option<String>,
    ) -> bool {
        self.repo@ == contribution.repo@ ==> !self.hits(company, email)
    }

    /// Compiles the rules of a configured repository. The first company whose
    /// patterns the engine refuses is reported.
    pub fn new(configured: &config::Repo) -> (built: Result<RepoRegex, PatternError>)
        ensures
            built is Ok <==> compiles_all(*configured),
            built matches Ok(rules) ==> rules.is_built_from(*configured),
            built matches Err(refused) ==> is_first_refused(*configured, refused.company),
    {
        let mut rules: Vec<ExcludeRegex> = Vec::new();
        let mut i: usize = 0;
        while i < configured.companies_exclude.len()
            invariant
                i <= configured.companies_exclude@.len(),
                rules@.len() == i,
                forall|j: int|
                    0 <= j < i ==> (#[trigger] rules@[j]).is_rule_for(
                        configured.companies_exclude@[j]@,
                    ),
                forall|j: int|
                    0 <= j < i ==> rule_compiles(#[trigger] configured.companies_exclude@[j]@),
            decreases configured.companies_exclude@.len() - i,
        {
            match ExcludeRegex::new(&configured.companies_exclude[i]) {
                Ok(rule) => {
                    rules.push(rule);
                },
                Err(refused) => {
                    return Err(refused);
                },
            }
            i += 1;
        }
        Ok(RepoRegex { repo: configured.repo.clone(), companies_exclude: rules })
    }

    /// Whether some rule matches the author's company text or e-mail address.
    fn matches_author(&self, company: &Option<String>, email: &Option<String>) -> (hit: bool)
        ensures
            hit == self.hits(*company, *email),
    {
        let mut i: usize = 0;
        while i < self.companies_exclude.len()
            invariant
                i <= self.companies_exclude@.len(),
                forall|j: int|
                    0 <= j < i ==> !(#[trigger] self.companies_exclude@[j]).hits(*company, *email),
            decreases self.companies_exclude@.len() - i,
        {
            if self.companies_exclude[i].test(company, email) {
                return true;
            }
            i += 1;
        }
        false
    }

    /// Whether a contribution stays under this repository's rules, for an
    /// author of whom `company` and `email` are known.
    pub fn retains(
        &self,
        contribution: &Contribution,
        company: &Option<String>,
        email: &Option<String>,
    ) -> (kept: bool)
        ensures
            kept == self.keeps(*contribution, *company, *email),
    {
        if self.repo == contribution.repo {
            !self.matches_author(company, email)
        } else {
            true
        }
    }

    /// Decides whether a contribution stays in the report under this
    /// repository's rules. A contribution made to another repository always
    /// stays; one made to this repository stays unless a rule matches its
    /// author's company text or e-mail address. The answer is `true` for a
    /// contribution that stays.
    pub fn exclude(&self, contribution: &Contribution, user: &EnrichedUser) -> (kept: bool)
        ensures
            kept == self.keeps(*contribution, user.company, user.email),
    {
        self.retains(contribution, &user.company, &user.email)
    }
}

/// The rules that were compiled for a configured repository match an author
/// exactly when the patterns of one of the excluded companies match the
/// author's company text or e-mail address.
pub proof fn lemma_rules_match_as_their_patterns(
    rules: RepoRegex,
    configured: config::Repo,
    company: Option<String>,
    email: Option<String>,
)
    requires
        rules.is_built_from(configured),
    ensures
        rules.hits(company, email) <==> exists|i: int|
            0 <= i < configured.companies_exclude@.len() && company_hits(
                (#[trigger] configured.companies_exclude@[i])@,
                company,
                email,
            ),
{
    if rules.hits(company, email) {
        let i = choose|i: int|
            0 <= i < rules.companies_exclude@.len() && (
            #[trigger] rules.companies_exclude@[i]).hits(company, email);
        assert(rules.companies_exclude@[i].is_rule_for(configured.companies_exclude@[i]@));
        assert(company_hits(configured.companies_exclude@[i]@, company, email));
    }
    if exists|i: int|
        0 <= i < configured.companies_exclude@.len() && company_hits(
            (#[trigger] configured.companies_exclude@[i])@,
            company,
            email,
        ) {
        let i = choose|i: int|
            0 <= i < configured.companies_exclude@.len() && company_hits(
                (#[trigger] configured.companies_exclude@[i])@,
                company,
                email,
            );
        assert(rules.companies_exclude@[i].is_rule_for(configured.companies_exclude@[i]@));
        assert(rules.companies_exclude@[i].hits(company, email));
    }
}

} // verus!
