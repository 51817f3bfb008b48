//! Plain records shared by the whole pipeline.

use vstd::prelude::*;
use vstd::std_specs::cmp::PartialEqSpecImpl;

pub mod commit;

verus! {

/// A tracked repository, identified by its owning organization and its name.
#[derive(Debug, Hash)]
pub struct Repo {
    pub org: String,
    pub name: String,
}

impl View for Repo {
    type V = (Seq<char>, Seq<char>);

    open spec fn view(&self) -> (Seq<char>, Seq<char>) {
        (self.org@, self.name@)
    }
}

impl Repo {
    pub fn new(org: String, name: String) -> (repo: Self)
        ensures
            repo.org == org,
            repo.name == name,
    {
        Repo { org, name }
    }

    /// The text `org/name`, as the platform writes a repository.
    pub fn full_name(&self) -> (text: String)
        ensures
            text@ == self.org@ + seq!['/'] + self.name@,
    {
        proof {
            reveal_strlit("/");
        }
        let text = self.org.clone().concat("/").concat(self.name.as_str());
        assert("/"@ =~= seq!['/']);
        text
    }
}

impl Clone for Repo {
    fn clone(&self) -> (copy: Self)
        ensures
            copy == *self,
    {
        Repo { org: self.org.clone(), name: self.name.clone() }
    }
}

/// Two repositories are the same when their organizations and names read the same.
impl PartialEq for Repo {
    fn eq(&self, other: &Self) -> (equal: bool) {
        self.org == other.org && self.name == other.name
    }
}

impl Eq for Repo {

}

impl PartialEqSpecImpl for Repo {
    open spec fn obeys_eq_spec() -> bool {
        true
    }

    open spec fn eq_spec(&self, other: &Self) -> bool {
        self@ == other@
    }
}

/// An instant on the UTC time line: whole seconds since 1970-01-01T00:00:00Z
/// and the nanoseconds past that second. Two instants are ordered by their
/// seconds first and their nanoseconds second, whatever time zone they were
/// read in.
#[derive(Clone, Copy, Debug, PartialEq, Eq, Structural)]
pub struct Timestamp {
    pub secs: i64,
    pub nanos: u32,
}

impl Timestamp {
    /// `self` lies strictly before `other`.
    pub open spec fn precedes(self, other: Timestamp) -> bool {
        self.secs < other.secs || (self.secs == other.secs && self.nanos < other.nanos)
    }

    #[verifier::when_used_as_spec(precedes)]
    pub fn is_before(self, other: Timestamp) -> (before: bool)
        ensures
            before == self.precedes(other),
    {
        self.secs < other.secs || (self.secs == other.secs && self.nanos < other.nanos)
    }
}

/// The platform's account record, reduced to its stable numeric identifier
/// and its login.
#[derive(Debug)]
pub struct User {
    pub id: u64,
    pub login: String,
}

impl Clone for User {
    fn clone(&self) -> (copy: Self)
        ensures
            copy == *self,
    {
        User { id: self.id, login: self.login.clone() }
    }
}

/// An account together with what is known of its affiliation.
#[derive(Debug)]
pub struct EnrichedUser {
    pub inner: User,
    pub company: Option<String>,
    pub email: Option<String>,
}

/// A copy of an optional text.
fn clone_text(text: &Option<String>) -> (copy: Option<String>)
    ensures
        copy == *text,
{
    match text {
        Some(t) => Some(t.clone()),
        None => None,
    }
}

impl Clone for EnrichedUser {
    fn clone(&self) -> (copy: Self)
        ensures
            copy == *self,
    {
        EnrichedUser {
            inner: self.inner.clone(),
            company: clone_text(&self.company),
            email: clone_text(&self.email),
        }
    }
}

} // verus!
