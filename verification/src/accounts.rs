//! The account-level web API: the provider orgs a user can link, the SSO
//! providers linked to the account, and the connected provider accounts.
//! This module builds the request URLs and decides what each response status
//! means; sending the requests and decoding the JSON bodies is I/O.
use vstd::prelude::*;
use crate::json::opt_string_view;
use crate::registry::SESSION_EXPIRED_ERROR;
use crate::text::{decimal_string, decimal_text, join2, join3, join4, to_owned_string};

verus! {

broadcast use vstd::string::group_string_axioms;

/// Single org entry returned by the provider API and surfaced to the frontend.
#[derive(Debug, Clone)]
pub struct OrgSummary {
    pub login: String,
    pub display_name: String,
    pub avatar_url: String,
    pub is_personal: bool,
    /// True when a Postlane project already exists for this org.
    pub has_project: bool,
    /// The project id of the existing project, if `has_project` is true.
    pub project_id: Option<String>,
}

/// A single connected provider account, as shown in the desktop switcher's
/// icon rail.
#[derive(Debug, Clone)]
pub struct ProviderAccountSummary {
    pub id: String,
    pub provider: String,
    pub provider_account_id: Option<String>,
    pub label: Option<String>,
    pub is_primary: bool,
}

/// The reason phrase that `reqwest::StatusCode::canonical_reason` gives for
/// `code`, or `None` when it knows none (or `code` is no status code).
pub uninterp spec fn status_reason(code: u16) -> Option<Seq<char>>;

/// Calls `reqwest::StatusCode::from_u16` and `canonical_reason`. The table of
/// reason phrases is left to the name `status_reason`.
#[verifier::external_body]
fn canonical_reason(code: u16) -> (r: Option<String>)
    ensures
        opt_string_view(r) == status_reason(code),
{
    match reqwest::StatusCode::from_u16(code) {
        Ok(s) => match s.canonical_reason() {
            Some(t) => Some(t.to_string()),
            None => None,
        },
        Err(_) => None,
    }
}

/// How a status code is written in messages: the number, a space, and the
/// reason phrase (or `<unknown status code>` when there is none).
pub open spec fn status_display(code: u16) -> Seq<char> {
    decimal_text(code as nat) + " "@ + match status_reason(code) {
        Some(r) => r,
        None => "<unknown status code>"@,
    }
}

/// Writes a status code as its `Display` impl does.
pub fn status_text(code: u16) -> (r: String)
    ensures
        r@ == status_display(code),
{
    let n = decimal_string(code as u128);
    let reason = canonical_reason(code);
    match reason {
        Some(t) => join3(n.as_str(), " ", t.as_str()),
        None => join3(n.as_str(), " ", "<unknown status code>"),
    }
}

pub open spec fn unexpected_status_text(code: u16, doing: Seq<char>) -> Seq<char> {
    "Unexpected status "@ + status_display(code) + " "@ + doing
}

fn unexpected_status(code: u16, doing: &str) -> (r: String)
    ensures
        r@ == unexpected_status_text(code, doing@),
{
    let st = status_text(code);
    join4("Unexpected status ", st.as_str(), " ", doing)
}

pub open spec fn session_expired_text() -> Seq<char> {
    "session_expired"@
}

/// `GET {base}/v1/provider/orgs?provider={provider}`.
pub fn provider_orgs_url(base_url: &str, provider: &str) -> (r: String)
    ensures
        r@ == base_url@ + "/v1/provider/orgs?provider="@ + provider@,
{
    join3(base_url, "/v1/provider/orgs?provider=", provider)
}

/// `GET {base}/v1/account/providers`.
pub fn linked_providers_url(base_url: &str) -> (r: String)
    ensures
        r@ == base_url@ + "/v1/account/providers"@,
{
    join2(base_url, "/v1/account/providers")
}

/// `GET {base}/v1/account/provider-accounts`.
pub fn provider_accounts_url(base_url: &str) -> (r: String)
    ensures
        r@ == base_url@ + "/v1/account/provider-accounts"@,
{
    join2(base_url, "/v1/account/provider-accounts")
}

/// `DELETE {base}/v1/account/provider-accounts/{id}`.
pub fn provider_account_url(base_url: &str, id: &str) -> (r: String)
    ensures
        r@ == base_url@ + "/v1/account/provider-accounts/"@ + id@,
{
    join3(base_url, "/v1/account/provider-accounts/", id)
}

/// What the provider-orgs status means: `Ok` when the body holds the orgs
/// (200); the session has expired (401); the org scope was not granted
/// (403); any other status is unexpected.
pub fn provider_orgs_status(status: u16) -> (r: Result<(), String>)
    ensures
        status == 200 ==> r is Ok,
        status == 401 ==> r is Err && r->Err_0@ == session_expired_text(),
        status == 403 ==> r is Err && r->Err_0@ == "scope_not_granted"@,
        status != 200 && status != 401 && status != 403 ==> r is Err && r->Err_0@ == unexpected_status_text(
            status,
            "fetching provider orgs"@,
        ),
{
    if status == 200 {
        Ok(())
    } else if status == 401 {
        Err(to_owned_string(SESSION_EXPIRED_ERROR))
    } else if status == 403 {
        Err(to_owned_string("scope_not_granted"))
    } else {
        Err(unexpected_status(status, "fetching provider orgs"))
    }
}

/// What the linked-providers status means: 200 reads the body, 401 is an
/// expired session, anything else is unexpected.
pub fn linked_providers_status(status: u16) -> (r: Result<(), String>)
    ensures
        status == 200 ==> r is Ok,
        status == 401 ==> r is Err && r->Err_0@ == session_expired_text(),
        status != 200 && status != 401 ==> r is Err && r->Err_0@ == unexpected_status_text(
            status,
            "fetching linked providers"@,
        ),
{
    if status == 200 {
        Ok(())
    } else if status == 401 {
        Err(to_owned_string(SESSION_EXPIRED_ERROR))
    } else {
        Err(unexpected_status(status, "fetching linked providers"))
    }
}

/// What the provider-accounts status means: 200 reads the body, 401 is an
/// expired session, anything else is unexpected.
pub fn provider_accounts_status(status: u16) -> (r: Result<(), String>)
    ensures
        status == 200 ==> r is Ok,
        status == 401 ==> r is Err && r->Err_0@ == session_expired_text(),
        status != 200 && status != 401 ==> r is Err && r->Err_0@ == unexpected_status_text(
            status,
            "fetching provider accounts"@,
        ),
{
    if status == 200 {
        Ok(())
    } else if status == 401 {
        Err(to_owned_string(SESSION_EXPIRED_ERROR))
    } else {
        Err(unexpected_status(status, "fetching provider accounts"))
    }
}

/// The outcome of removing a provider account: done (200), expired session
/// (401), no such account (404), or the primary account, which cannot be
/// removed (409); anything else is unexpected.
pub fn remove_account_status(status: u16) -> (r: Result<(), String>)
    ensures
        status == 200 ==> r is Ok,
        status == 401 ==> r is Err && r->Err_0@ == session_expired_text(),
        status == 404 ==> r is Err && r->Err_0@ == "account_not_found"@,
        status == 409 ==> r is Err && r->Err_0@ == "cannot_remove_primary"@,
        status != 200 && status != 401 && status != 404 && status != 409 ==> r is Err && r->Err_0@
            == unexpected_status_text(status, "removing provider account"@),
{
    if status == 200 {
        Ok(())
    } else if status == 401 {
        Err(to_owned_string(SESSION_EXPIRED_ERROR))
    } else if status == 404 {
        Err(to_owned_string("account_not_found"))
    } else if status == 409 {
        Err(to_owned_string("cannot_remove_primary"))
    } else {
        Err(unexpected_status(status, "removing provider account"))
    }
}

/// The error for a request that never got a response, e.g.
/// `Network error fetching provider orgs: {e}`.
pub fn network_error(doing: &str, e: &str) -> (r: String)
    ensures
        r@ == "Network error "@ + doing@ + ": "@ + e@,
{
    join4("Network error ", doing, ": ", e)
}

/// The error for a body that could not be decoded, e.g.
/// `Failed to parse provider orgs response: {e}`.
pub fn parse_error(what: &str, e: &str) -> (r: String)
    ensures
        r@ == "Failed to parse "@ + what@ + " response: "@ + e@,
{
    join4("Failed to parse ", what, " response: ", e)
}

} // verus!
