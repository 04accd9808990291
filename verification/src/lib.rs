//! Verified core of the Postlane desktop backend: validation of user input,
//! credential and scheduler bookkeeping, repo registry operations and the
//! decision logic of the scheduling providers.
use vstd::prelude::*;

pub mod text;
pub mod json;
pub mod validation;
pub mod registry;
pub mod scheduling;
pub mod credentials;
pub mod usage;
pub mod routing;
pub mod repos;
pub mod sync;
pub mod connection;
pub mod published;
pub mod identifiers;
pub mod provider_policy;
pub mod ip_ranges;
pub mod discovery;
pub mod accounts;
pub mod scheduler_config;
pub mod schedule_time;
pub mod repo_init;
pub mod providers;
pub mod laws;

verus! {
} // verus!
