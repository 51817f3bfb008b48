//! The policy a run is configured with. It is read once and never changed.

use crate::models;
use vstd::prelude::*;

verus! {

/// Everything a run is configured with.
#[derive(Debug)]
pub struct Config {
    /// The organizations whose members count as affiliated.
    pub company_organizations: Vec<String>,
    /// The tracked repositories, each with its exclusion rules.
    pub repos: Vec<Repo>,
    pub orgs: Vec<Org>,
    /// Accounts whose company is stated here instead of being looked up.
    pub user_overrides: Vec<UserOverride>,
    /// Logins whose activity is never reported.
    pub users_exclude: Vec<String>,
}

/// A tracked repository and the companies whose people are not reported for it.
#[derive(Debug)]
pub struct Repo {
    pub repo: models::Repo,
    pub companies_exclude: Vec<String>,
}

#[derive(Debug)]
pub struct Org {
    pub name: String,
    pub companies_exclude: Vec<String>,
}

/// The company of one account, stated by hand.
#[derive(Debug)]
pub struct UserOverride {
    pub login: String,
    pub company: String,
}

} // verus!
