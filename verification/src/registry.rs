//! Project registry: the project summary shown in the switcher, project and
//! billing states, project creation errors, and the license-token gate.
use vstd::prelude::*;
use crate::accounts::{status_display, status_text};
use crate::discovery::path_is_registered;
use crate::identifiers::{bytes_hex_text, sha256_digest, sha256_hex};
use crate::json::{entry_keys, entry_value, push_entry, str_of, JsonValue};
use crate::repos::Repo;
use vstd::string::StringSliceAdditionalSpecFns;
use crate::text::{join2, join3, to_owned_string};
use crate::validation::{project_id_check, result_view, validate_project_id};

verus! {

broadcast use vstd::string::group_string_axioms;

/// Lightweight project summary returned by the project list.
#[derive(Clone, Debug)]
pub struct ProjectSummary {
    pub id: String,
    pub name: String,
    pub workspace_type: String,
    pub tier: String,
    pub billing_active: bool,
    pub is_owner: bool,
    pub provider_org_login: Option<String>,
}

/// Outcome of checking whether the current user owns a project.
#[derive(Debug, PartialEq, Eq, Structural, Clone, Copy)]
pub enum ProjectStatus {
    Owned,
    NotFound,
    Offline,
}

/// Billing gate state for the current account: a free slot is available,
/// no slot is available (`NoPlan`), or the backend could not be reached.
#[derive(Debug, PartialEq, Eq, Structural, Clone, Copy)]
pub enum BillingGate {
    Free,
    NoPlan,
    Offline,
}

/// Errors that can occur when creating a project.
#[derive(Debug)]
pub enum CreateProjectError {
    InvalidName(String),
    InvalidWorkspaceType(String),
    NoFreeSlot,
    OrgAlreadyRegistered,
    NoLicenseToken,
    Backend(String),
}

/// The text shown to the user for a project creation error.
pub open spec fn create_project_error_text(e: CreateProjectError) -> Seq<char> {
    match e {
        CreateProjectError::InvalidName(msg) => "Invalid project name: "@ + msg@,
        CreateProjectError::InvalidWorkspaceType(t) => "Invalid workspace type: '"@ + t@
            + "'. Must be personal, organization, or client"@,
        CreateProjectError::NoFreeSlot => "No free project slot. Subscribe at postlane.dev/billing"@,
        CreateProjectError::OrgAlreadyRegistered =>
            "This GitHub/GitLab organisation is already linked to a Postlane project"@,
        CreateProjectError::NoLicenseToken => "No license token — sign in at postlane.dev/login"@,
        CreateProjectError::Backend(msg) => "Backend error: "@ + msg@,
    }
}

impl CreateProjectError {
    /// The user-facing message for this error.
    pub fn to_message(&self) -> (s: String)
        ensures
            s@ == create_project_error_text(*self),
    {
        match self {
            CreateProjectError::InvalidName(msg) => join2("Invalid project name: ", msg.as_str()),
            CreateProjectError::InvalidWorkspaceType(t) => join3(
                "Invalid workspace type: '",
                t.as_str(),
                "'. Must be personal, organization, or client",
            ),
            CreateProjectError::NoFreeSlot => to_owned_string(
                "No free project slot. Subscribe at postlane.dev/billing",
            ),
            CreateProjectError::OrgAlreadyRegistered => to_owned_string(
                "This GitHub/GitLab organisation is already linked to a Postlane project",
            ),
            CreateProjectError::NoLicenseToken => to_owned_string(
                "No license token — sign in at postlane.dev/login",
            ),
            CreateProjectError::Backend(msg) => join2("Backend error: ", msg.as_str()),
        }
    }
}

/// Canonical error returned to the frontend when a web API command receives
/// HTTP 401; the frontend recognises this exact string.
pub const SESSION_EXPIRED_ERROR: &'static str = "session_expired";

pub open spec fn no_license_token_message() -> Seq<char> {
    "No license token — sign in at postlane.dev/login"@
}

/// `Ok(token)` when a token is present, otherwise the sign-in prompt.
pub fn require_license_token(opt: Option<String>) -> (r: Result<String, String>)
    ensures
        match opt {
            Some(t) => r == Ok::<String, String>(t),
            None => r is Err && r->Err_0@ == no_license_token_message(),
        },
{
    match opt {
        Some(t) => Ok(t),
        None => Err(to_owned_string("No license token — sign in at postlane.dev/login")),
    }
}


pub open spec fn unregistered_path_message(path: Seq<char>) -> Seq<char> {
    "Path '"@ + path + "' is not in the registered repos list"@
}

/// The body sent when a repo is registered with a project: the SHA-256 of
/// its path (the path itself never leaves the machine) and its description.
pub open spec fn registration_body_ok(body: JsonValue, repo_path: &str, description: Seq<char>) -> bool {
    &&& body matches JsonValue::Object(entries) && entry_keys(entries@) == seq![
        "repo_path_hash"@,
        "description"@,
    ]
    &&& str_of(entry_value(body->Object_0@, "repo_path_hash"@)->0) == Some(
        bytes_hex_text(sha256_digest(repo_path.spec_bytes())),
    )
    &&& str_of(entry_value(body->Object_0@, "description"@)->0) == Some(description)
}

/// The request that registers the repo at `repo_path` with a project:
/// `POST {base}/v1/projects/{project_id}/repos` and its JSON body. The
/// project ID must be valid and the path must be a registered repo's.
pub fn repo_registration_request(
    project_id: &str,
    repo_path: &str,
    description: &str,
    base_url: &str,
    repos: &[Repo],
) -> (r: Result<(String, JsonValue), String>)
    ensures
        project_id_check(project_id@, project_id.len() as nat) matches Err(e) ==> r is Err && r->Err_0@ == e,
        project_id_check(project_id@, project_id.len() as nat) is Ok && !(exists|i: int|
            0 <= i < repos@.len() && #[trigger] repos@[i].path@ == repo_path@) ==> r is Err && r->Err_0@
            == unregistered_path_message(repo_path@),
        project_id_check(project_id@, project_id.len() as nat) is Ok && (exists|i: int|
            0 <= i < repos@.len() && #[trigger] repos@[i].path@ == repo_path@) ==> r is Ok && r->Ok_0.0@
            == base_url@ + "/v1/projects/"@ + project_id@ + "/repos"@ && registration_body_ok(
            r->Ok_0.1,
            repo_path,
            description@,
        ),
{
    match validate_project_id(project_id) {
        Err(e) => return Err(e),
        Ok(()) => {},
    }
    if !path_is_registered(repos, repo_path) {
        return Err(join3("Path '", repo_path, "' is not in the registered repos list"));
    }
    let hash = sha256_hex(repo_path);
    let mut entries: Vec<(String, JsonValue)> = Vec::new();
    push_entry(&mut entries, "repo_path_hash", JsonValue::Str(hash));
    let ghost first = entries@;
    push_entry(&mut entries, "description", JsonValue::Str(to_owned_string(description)));
    proof {
        reveal_strlit("repo_path_hash");
        reveal_strlit("description");
        assert(entry_keys(entries@) =~= seq!["repo_path_hash"@, "description"@]);
        assert(entry_value(first, "repo_path_hash"@) is Some);
        assert(entry_value(entries@, "repo_path_hash"@) == entry_value(first, "repo_path_hash"@));
        assert("description"@.len() != "repo_path_hash"@.len());
        assert(entry_value(first, "description"@) is None);
    }
    let url = join3(base_url, "/v1/projects/", project_id);
    let full = join2(url.as_str(), "/repos");
    assert(full@ =~= base_url@ + "/v1/projects/"@ + project_id@ + "/repos"@);
    Ok((full, JsonValue::Object(entries)))
}

pub open spec fn backend_returned_message(status: u16) -> Seq<char> {
    "Backend returned "@ + status_display(status)
}

/// What the registration response status means: any 2xx status succeeds,
/// any other is reported with the status.
pub fn registration_status(status: u16) -> (r: Result<(), String>)
    ensures
        200 <= status <= 299 ==> r is Ok,
        !(200 <= status <= 299) ==> r is Err && r->Err_0@ == backend_returned_message(status),
{
    if 200 <= status && status <= 299 {
        Ok(())
    } else {
        let st = status_text(status);
        Err(join2("Backend returned ", st.as_str()))
    }
}

} // verus!
