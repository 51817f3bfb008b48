//! Audit of open-source contribution activity.
//!
//! The library takes the raw activity of a set of tracked repositories
//! (issues, pull-request reviews and commits), groups it by author, settles
//! each author's company affiliation and applies the reporting policy: the
//! explicit exclude list, the time window and the per-repository exclusion
//! rules. Every remote call is left to the caller; the library decides what
//! has to be asked next and what follows from each answer.

pub mod config;
pub mod contribution;
pub mod github_contribution_collector;
pub mod models;

pub use contribution::Contribution;
