//! The registry of connected repos and workspaces (`repos.json`) and the
//! operations on it: removing, activating and re-pointing a repo, health
//! rows, the project-scoped repo list, and the v1 → v2 schema migration.
use vstd::prelude::*;
use crate::text::{join3, str_eq, to_owned_string, trim, trimmed};
use crate::discovery::{folder_name, folder_name_spec};
use crate::json::{field, set_entry, JsonValue};
use crate::identifiers::{new_uuid_v4, uuid_v4_text};
use crate::schedule_time::{is_timestamp_text, now_rfc3339};

verus! {

broadcast use vstd::string::group_string_axioms;

/// Current schema version of `repos.json`.
pub const REPOS_CONFIG_VERSION: u32 = 2;

/// A repo folder connected in the desktop app.
#[derive(Clone, Debug)]
pub struct Repo {
    pub id: String,
    pub name: String,
    pub path: String,
    pub active: bool,
    pub added_at: String,
}

impl Repo {
    /// A field-for-field copy.
    pub fn duplicate(&self) -> (r: Repo)
        ensures
            r == *self,
    {
        Repo {
            id: self.id.clone(),
            name: self.name.clone(),
            path: self.path.clone(),
            active: self.active,
            added_at: self.added_at.clone(),
        }
    }
}

/// A workspace folder registered for a project; `id` is the project ID.
#[derive(Clone, Debug)]
pub struct WorkspaceEntry {
    pub id: String,
    pub name: String,
    pub workspace_path: String,
    pub active: bool,
    pub added_at: String,
    pub license_status: Option<String>,
    pub is_owner: Option<bool>,
    pub status_updated_at: Option<String>,
}

/// The contents of `repos.json`.
#[derive(Clone, Debug)]
pub struct ReposConfig {
    pub version: u32,
    pub workspaces: Vec<WorkspaceEntry>,
    pub repos: Vec<Repo>,
}

/// Index of the first repo with ID `id`, if any.
pub open spec fn first_index_of(repos: Seq<Repo>, id: Seq<char>) -> Option<int> {
    if exists|i: int| 0 <= i < repos.len() && #[trigger] repos[i].id@ == id {
        let i = choose|i: int|
            0 <= i < repos.len() && repos[i].id@ == id && forall|j: int|
                0 <= j < i ==> #[trigger] repos[j].id@ != id;
        Some(i)
    } else {
        None
    }
}

pub open spec fn is_first_index(repos: Seq<Repo>, id: Seq<char>, i: int) -> bool {
    0 <= i < repos.len() && repos[i].id@ == id && forall|j: int|
        0 <= j < i ==> #[trigger] repos[j].id@ != id
}

proof fn lemma_first_index(repos: Seq<Repo>, id: Seq<char>, i: int)
    requires
        is_first_index(repos, id, i),
    ensures
        first_index_of(repos, id) == Some(i),
{
    let k = choose|k: int|
        0 <= k < repos.len() && repos[k].id@ == id && forall|j: int|
            0 <= j < k ==> #[trigger] repos[j].id@ != id;
    assert(is_first_index(repos, id, i));
    if k < i {
        assert(repos[k].id@ != id);
    } else if k > i {
        assert(repos[i].id@ != id);
    }
}

proof fn lemma_first_match_exists(repos: Seq<Repo>, id: Seq<char>, k: int)
    requires
        0 <= k < repos.len(),
        repos[k].id@ == id,
    ensures
        exists|m: int| is_first_index(repos, id, m),
    decreases k,
{
    if exists|j: int| 0 <= j < k && #[trigger] repos[j].id@ == id {
        let j = choose|j: int| 0 <= j < k && #[trigger] repos[j].id@ == id;
        lemma_first_match_exists(repos, id, j);
    } else {
        assert(is_first_index(repos, id, k));
    }
}

/// The index `first_index_of` picks is the first occurrence of `id`.
pub proof fn lemma_first_index_of(repos: Seq<Repo>, id: Seq<char>)
    ensures
        match first_index_of(repos, id) {
            Some(i) => is_first_index(repos, id, i),
            None => forall|j: int| 0 <= j < repos.len() ==> #[trigger] repos[j].id@ != id,
        },
{
    if exists|i: int| 0 <= i < repos.len() && #[trigger] repos[i].id@ == id {
        let k = choose|i: int| 0 <= i < repos.len() && #[trigger] repos[i].id@ == id;
        lemma_first_match_exists(repos, id, k);
    }
}

/// Finds the first repo with ID `id`.
pub fn find_repo_index(repos: &[Repo], id: &str) -> (r: Option<usize>)
    ensures
        match r {
            Some(i) => first_index_of(repos@, id@) == Some(i as int) && is_first_index(
                repos@,
                id@,
                i as int,
            ),
            None => first_index_of(repos@, id@) is None,
        },
{
    let mut i: usize = 0;
    while i < repos.len()
        invariant
            0 <= i <= repos@.len(),
            forall|j: int| 0 <= j < i ==> #[trigger] repos@[j].id@ != id@,
        decreases repos@.len() - i,
    {
        if str_eq(repos[i].id.as_str(), id) {
            proof {
                lemma_first_index(repos@, id@, i as int);
            }
            return Some(i);
        }
        i += 1;
    }
    None
}

pub open spec fn repo_not_found_message(id: Seq<char>) -> Seq<char> {
    "Repo with id '"@ + id + "' not found"@
}

/// Removes the first repo with ID `id` from the registry; an unknown ID is an
/// error and leaves the registry unchanged.
pub fn remove_repo_impl(id: &str, config: &mut ReposConfig) -> (r: Result<(), String>)
    ensures
        match first_index_of(old(config).repos@, id@) {
            Some(i) => r is Ok && final(config).repos@ == old(config).repos@.remove(i),
            None => r is Err && r->Err_0@ == repo_not_found_message(id@) && final(config).repos@
                == old(config).repos@,
        },
        final(config).version == old(config).version,
        final(config).workspaces@ == old(config).workspaces@,
{
    match find_repo_index(&config.repos, id) {
        Some(i) => {
            config.repos.remove(i);
            Ok(())
        },
        None => Err(join3("Repo with id '", id, "' not found")),
    }
}

/// Removes a repo registration (the file watcher is stopped by the caller);
/// an unknown ID is an error. No file on disk is touched.
pub fn unregister_repo_impl(repo_id: &str, config: &mut ReposConfig) -> (r: Result<(), String>)
    ensures
        match first_index_of(old(config).repos@, repo_id@) {
            Some(i) => r is Ok && final(config).repos@ == old(config).repos@.remove(i),
            None => r is Err && r->Err_0@ == repo_not_found_message(repo_id@) && final(config).repos@
                == old(config).repos@,
        },
        final(config).version == old(config).version,
        final(config).workspaces@ == old(config).workspaces@,
{
    remove_repo_impl(repo_id, config)
}

pub open spec fn with_active(r: Repo, active: bool) -> Repo {
    Repo { active: active, ..r }
}

/// Sets the `active` flag of the first repo with ID `id`; an unknown ID is an
/// error and leaves the registry unchanged.
pub fn set_repo_active_impl(id: &str, active: bool, config: &mut ReposConfig) -> (r: Result<(), String>)
    ensures
        match first_index_of(old(config).repos@, id@) {
            Some(i) => r is Ok && final(config).repos@ == old(config).repos@.update(
                i,
                with_active(old(config).repos@[i], active),
            ),
            None => r is Err && r->Err_0@ == repo_not_found_message(id@) && final(config).repos@
                == old(config).repos@,
        },
        final(config).version == old(config).version,
        final(config).workspaces@ == old(config).workspaces@,
{
    match find_repo_index(&config.repos, id) {
        Some(i) => {
            let mut repo = config.repos[i].duplicate();
            repo.active = active;
            config.repos.set(i, repo);
            Ok(())
        },
        None => Err(join3("Repo with id '", id, "' not found")),
    }
}

/// Health of one registered repo: whether its `.postlane/config.json` is there.
#[derive(Clone, Debug)]
pub struct RepoHealthStatus {
    pub id: String,
    pub reachable: bool,
    pub path: String,
}

/// One health row per registered repo, in registry order; `config_present[i]`
/// tells whether repo `i` has its `.postlane/config.json`.
pub fn check_repo_health_impl(config: &ReposConfig, config_present: &[bool]) -> (r: Vec<RepoHealthStatus>)
    requires
        config_present@.len() == config.repos@.len(),
    ensures
        r@.len() == config.repos@.len(),
        forall|i: int|
            0 <= i < r@.len() ==> (#[trigger] r@[i]).id == config.repos@[i].id && r@[i].path
                == config.repos@[i].path && r@[i].reachable == config_present@[i],
{
    let mut statuses: Vec<RepoHealthStatus> = Vec::new();
    let mut i: usize = 0;
    while i < config.repos.len()
        invariant
            0 <= i <= config.repos@.len(),
            config_present@.len() == config.repos@.len(),
            statuses@.len() == i,
            forall|j: int|
                0 <= j < i ==> (#[trigger] statuses@[j]).id == config.repos@[j].id && statuses@[j].path
                    == config.repos@[j].path && statuses@[j].reachable == config_present@[j],
        decreases config.repos@.len() - i,
    {
        let repo = &config.repos[i];
        statuses.push(
            RepoHealthStatus {
                id: repo.id.clone(),
                reachable: config_present[i],
                path: repo.path.clone(),
            },
        );
        i += 1;
    }
    statuses
}

/// Points the first repo with ID `id` at `new_path` (already canonicalised and
/// checked by the caller); an unknown ID is an error and changes nothing.
pub fn set_repo_path(id: &str, new_path: &str, config: &mut ReposConfig) -> (r: Result<(), String>)
    ensures
        match first_index_of(old(config).repos@, id@) {
            Some(i) => r is Ok && final(config).repos@.len() == old(config).repos@.len() && (forall|j: int|
                0 <= j < old(config).repos@.len() && j != i ==> #[trigger] final(config).repos@[j]
                    == old(config).repos@[j]) && final(config).repos@[i].path@ == new_path@
                && final(config).repos@[i].id == old(config).repos@[i].id && final(config).repos@[i].name
                == old(config).repos@[i].name && final(config).repos@[i].active == old(config).repos@[i].active
                && final(config).repos@[i].added_at == old(config).repos@[i].added_at,
            None => r is Err && r->Err_0@ == repo_not_found_message(id@) && final(config).repos@
                == old(config).repos@,
        },
        final(config).version == old(config).version,
        final(config).workspaces@ == old(config).workspaces@,
{
    match find_repo_index(&config.repos, id) {
        Some(i) => {
            let mut repo = config.repos[i].duplicate();
            repo.path = new_path.to_string();
            config.repos.set(i, repo);
            Ok(())
        },
        None => Err(join3("Repo with id '", id, "' not found")),
    }
}

/// Appends a newly connected repo (active) to the registry and returns it.
pub fn register_repo(config: &mut ReposConfig, id: String, name: String, path: String, added_at: String) -> (r: Repo)
    ensures
        r == (Repo { id: id, name: name, path: path, active: true, added_at: added_at }),
        final(config).repos@ == old(config).repos@.push(r),
        final(config).version == old(config).version,
        final(config).workspaces@ == old(config).workspaces@,
{
    let repo = Repo { id, name, path, active: true, added_at };
    let copy = repo.duplicate();
    config.repos.push(copy);
    repo
}

pub open spec fn not_git_message() -> Seq<char> {
    "Not a git repository"@
}

pub open spec fn config_missing_message() -> Seq<char> {
    "config.json not found. Run `postlane init` first."@
}

pub open spec fn moved_config_missing_message() -> Seq<char> {
    "config.json not found at new path"@
}

/// The checks on a folder before it is connected: it must be a git checkout
/// (`.git` exists) that has been initialised (`.postlane/config.json` exists).
pub fn check_new_repo_dir(has_git: bool, has_config: bool) -> (r: Result<(), String>)
    ensures
        !has_git ==> r is Err && r->Err_0@ == not_git_message(),
        has_git && !has_config ==> r is Err && r->Err_0@ == config_missing_message(),
        has_git && has_config ==> r is Ok,
{
    if !has_git {
        Err(to_owned_string("Not a git repository"))
    } else if !has_config {
        Err(to_owned_string("config.json not found. Run `postlane init` first."))
    } else {
        Ok(())
    }
}

/// The same checks on the folder a repo has moved to.
pub fn check_moved_repo_dir(has_git: bool, has_config: bool) -> (r: Result<(), String>)
    ensures
        !has_git ==> r is Err && r->Err_0@ == not_git_message(),
        has_git && !has_config ==> r is Err && r->Err_0@ == moved_config_missing_message(),
        has_git && has_config ==> r is Ok,
{
    if !has_git {
        Err(to_owned_string("Not a git repository"))
    } else if !has_config {
        Err(to_owned_string("config.json not found at new path"))
    } else {
        Ok(())
    }
}

/// Connects the folder at the resolved path `canonical`, given whether it
/// holds `.git` and `.postlane/config.json`: after the checks of
/// `check_new_repo_dir`, the repo is named after its folder, registered as
/// active with the new `id` and `added_at`, and returned. A failed check or a
/// path without a folder name (`Invalid folder name`) leaves the registry as
/// it was.
pub fn add_repo_impl(
    canonical: &str,
    has_git: bool,
    has_config: bool,
    id: String,
    added_at: String,
    config: &mut ReposConfig,
) -> (r: Result<Repo, String>)
    ensures
        !has_git ==> r is Err && r->Err_0@ == not_git_message(),
        has_git && !has_config ==> r is Err && r->Err_0@ == config_missing_message(),
        has_git && has_config && folder_name_spec(canonical@) is None ==> r is Err && r->Err_0@
            == "Invalid folder name"@,
        r is Err ==> *final(config) == *old(config),
        r is Ok ==> has_git && has_config && folder_name_spec(canonical@) is Some,
        has_git && has_config && folder_name_spec(canonical@) is Some ==> r is Ok && r->Ok_0.id == id
            && r->Ok_0.name@ == folder_name_spec(canonical@)->0 && r->Ok_0.path@ == canonical@ && r->Ok_0.active
            && r->Ok_0.added_at == added_at && final(config).repos@ == old(config).repos@.push(r->Ok_0)
            && final(config).version == old(config).version && final(config).workspaces@
            == old(config).workspaces@,
{
    match check_new_repo_dir(has_git, has_config) {
        Err(e) => return Err(e),
        Ok(()) => {},
    }
    let name = match folder_name(canonical) {
        Some(n) => n,
        None => return Err(to_owned_string("Invalid folder name")),
    };
    Ok(register_repo(config, id, name, to_owned_string(canonical), added_at))
}

/// `add_repo_impl` with a fresh random ID and the current time.
pub fn connect_repo(canonical: &str, has_git: bool, has_config: bool, config: &mut ReposConfig) -> (r: Result<
    Repo,
    String,
>)
    ensures
        !has_git ==> r is Err && r->Err_0@ == not_git_message(),
        has_git && !has_config ==> r is Err && r->Err_0@ == config_missing_message(),
        has_git && has_config && folder_name_spec(canonical@) is None ==> r is Err && r->Err_0@
            == "Invalid folder name"@,
        r is Err ==> *final(config) == *old(config),
        r is Ok ==> has_git && has_config && folder_name_spec(canonical@) is Some,
        has_git && has_config && folder_name_spec(canonical@) is Some ==> r is Ok && uuid_v4_text(r->Ok_0.id@)
            && r->Ok_0.name@ == folder_name_spec(canonical@)->0 && r->Ok_0.path@ == canonical@ && r->Ok_0.active
            && is_timestamp_text(r->Ok_0.added_at@) && final(config).repos@ == old(config).repos@.push(r->Ok_0)
            && final(config).version == old(config).version && final(config).workspaces@
            == old(config).workspaces@,
{
    let id = new_uuid_v4();
    let added_at = now_rfc3339();
    add_repo_impl(canonical, has_git, has_config, id, added_at, config)
}

/// A repo found by discovery, to be appended to the registry: named `name`,
/// at `path`, active, with a fresh random ID and the current time.
pub fn new_discovered_repo(name: String, path: String) -> (r: Repo)
    ensures
        r.name == name,
        r.path == path,
        r.active,
        uuid_v4_text(r.id@),
        is_timestamp_text(r.added_at@),
{
    Repo { id: new_uuid_v4(), name, path, active: true, added_at: now_rfc3339() }
}

/// Re-points repo `id` at the resolved path `canonical`, after the checks of
/// `check_moved_repo_dir`; see `set_repo_path`.
pub fn update_repo_path_impl(id: &str, canonical: &str, has_git: bool, has_config: bool, config: &mut ReposConfig) -> (r:
    Result<(), String>)
    ensures
        !has_git ==> r is Err && r->Err_0@ == not_git_message() && *final(config) == *old(config),
        has_git && !has_config ==> r is Err && r->Err_0@ == moved_config_missing_message() && *final(config)
            == *old(config),
        has_git && has_config ==> match first_index_of(old(config).repos@, id@) {
            Some(i) => r is Ok && final(config).repos@ == old(config).repos@.update(
                i,
                Repo { path: final(config).repos@[i].path, ..old(config).repos@[i] },
            ) && final(config).repos@[i].path@ == canonical@,
            None => r is Err && r->Err_0@ == repo_not_found_message(id@) && final(config).repos@
                == old(config).repos@,
        },
        final(config).version == old(config).version,
        final(config).workspaces@ == old(config).workspaces@,
{
    match check_moved_repo_dir(has_git, has_config) {
        Err(e) => return Err(e),
        Ok(()) => {},
    }
    let ghost before = config.repos@;
    let r = set_repo_path(id, canonical, config);
    proof {
        lemma_first_index_of(before, id@);
    }
    proof {
        match first_index_of(before, id@) {
            Some(i) => {
                lemma_first_index_of(before, id@);
                let e = Repo { path: config.repos@[i].path, ..before[i] };
                assert(config.repos@[i] == e);
                assert(config.repos@ =~= before.update(i, e));
            },
            None => {},
        }
    }
    r
}

// ── schema migration ─────────────────────────────────────────────────────────
/// The v2 form of a registry: `None` when it is already v2 (nothing to
/// rewrite); otherwise version 2, no workspaces, and the same repos.
pub open spec fn migration_spec(config: ReposConfig) -> Option<(u32, Seq<WorkspaceEntry>, Seq<Repo>)> {
    if config.version == REPOS_CONFIG_VERSION {
        None
    } else {
        Some((REPOS_CONFIG_VERSION, Seq::empty(), config.repos@))
    }
}

/// Rewrites a v1 registry as v2, keeping its repos and starting with no
/// workspaces; returns `None` when the registry is already v2.
pub fn migrate_repos_to_v2(config: ReposConfig) -> (r: Option<ReposConfig>)
    ensures
        match migration_spec(config) {
            None => r is None,
            Some((v, ws, repos)) => r is Some && r->0.version == v && r->0.workspaces@ == ws
                && r->0.repos@ == repos,
        },
{
    if config.version == REPOS_CONFIG_VERSION {
        return None;
    }
    Some(ReposConfig { version: REPOS_CONFIG_VERSION, workspaces: Vec::new(), repos: config.repos })
}

/// The member of the app state recording that the registry was migrated.
pub open spec fn schema_v2_flag_key() -> Seq<char> {
    "repos_schema_v2"@
}

/// The app state with `repos_schema_v2` set to `true`, every other member
/// kept; a missing state (`null`) becomes an object holding only the flag.
pub fn with_schema_v2_flag(state: JsonValue) -> (r: JsonValue)
    requires
        state is Object || state is Null,
    ensures
        r is Object,
        forall|q: Seq<char>|
            #[trigger] field(r, q) == (if q == schema_v2_flag_key() {
                JsonValue::Bool(true)
            } else {
                field(state, q)
            }),
{
    proof {
        reveal_strlit("repos_schema_v2");
    }
    let mut entries: Vec<(String, JsonValue)> = match state {
        JsonValue::Object(es) => es,
        _ => Vec::new(),
    };
    set_entry(&mut entries, "repos_schema_v2", JsonValue::Bool(true));
    JsonValue::Object(entries)
}

// ── project-scoped views ─────────────────────────────────────────────────────
/// Lightweight repo summary for project-scoped repo lists.
#[derive(Clone, Debug)]
pub struct RepoSummary {
    pub id: String,
    pub name: String,
    pub path: String,
    pub active: bool,
}

/// What is known on disk of a registered repo: whether its path lies inside
/// the user's home directory, and the `project_id` of its
/// `.postlane/config.json` (`None` when absent, unreadable or without one).
#[derive(Clone, Debug)]
pub struct RepoLocation {
    pub inside_home: bool,
    pub project_id: Option<String>,
}

pub open spec fn in_project(loc: RepoLocation, project_id: Seq<char>) -> bool {
    loc.inside_home && match loc.project_id {
        Some(p) => p@ == project_id,
        None => false,
    }
}

pub open spec fn summary_of(r: Repo) -> RepoSummary {
    RepoSummary { id: r.id, name: r.name, path: r.path, active: r.active }
}

/// The repos (in registry order) that lie inside the home directory and whose
/// config names `project_id`.
pub open spec fn project_repos(repos: Seq<Repo>, locs: Seq<RepoLocation>, project_id: Seq<char>) -> Seq<
    RepoSummary,
>
    decreases repos.len(),
{
    if repos.len() == 0 || locs.len() == 0 {
        Seq::empty()
    } else {
        let rest = project_repos(repos.drop_last(), locs.drop_last(), project_id);
        if in_project(locs.last(), project_id) {
            rest.push(summary_of(repos.last()))
        } else {
            rest
        }
    }
}

/// `s` is the summary (ID, name, path and active flag) of a repo inside the
/// home folder whose config names `project_id`.
pub open spec fn listed_repo(s: RepoSummary, repos: Seq<Repo>, locs: Seq<RepoLocation>, project_id: Seq<char>) -> bool {
    exists|i: int|
        0 <= i < repos.len() && in_project(#[trigger] locs[i], project_id) && s == (RepoSummary {
            id: repos[i].id,
            name: repos[i].name,
            path: repos[i].path,
            active: repos[i].active,
        })
}

/// Every repo inside the home folder whose config names the project is
/// listed, active or not, with its ID, name, path and active flag; and
/// nothing else is listed.
pub proof fn lemma_project_repos_members(repos: Seq<Repo>, locs: Seq<RepoLocation>, project_id: Seq<char>)
    requires
        locs.len() == repos.len(),
    ensures
        forall|i: int|
            0 <= i < repos.len() && in_project(#[trigger] locs[i], project_id) ==> project_repos(repos, locs, project_id).contains(
                (RepoSummary { id: repos[i].id, name: repos[i].name, path: repos[i].path, active: repos[i].active }),
            ),
        forall|j: int|
            0 <= j < project_repos(repos, locs, project_id).len() ==> listed_repo(
                #[trigger] project_repos(repos, locs, project_id)[j],
                repos,
                locs,
                project_id,
            ),
    decreases repos.len(),
{
    if repos.len() > 0 {
        let (rs, ls) = (repos.drop_last(), locs.drop_last());
        lemma_project_repos_members(rs, ls, project_id);
        let rest = project_repos(rs, ls, project_id);
        let all = project_repos(repos, locs, project_id);
        let n = repos.len() - 1;
        let last = RepoSummary { id: repos[n].id, name: repos[n].name, path: repos[n].path, active: repos[n].active };
        assert forall|i: int|
            0 <= i < repos.len() && in_project(#[trigger] locs[i], project_id) implies all.contains(
                (RepoSummary { id: repos[i].id, name: repos[i].name, path: repos[i].path, active: repos[i].active }),
            ) by {
            if i < n {
                assert(rs[i] == repos[i] && ls[i] == locs[i]);
                let x = RepoSummary { id: repos[i].id, name: repos[i].name, path: repos[i].path, active: repos[i].active };
                assert(rest.contains(x));
                let w = choose|w: int| 0 <= w < rest.len() && rest[w] == x;
                if in_project(locs[n], project_id) {
                    assert(all == rest.push(summary_of(repos[n])));
                    assert(all[w] == x);
                } else {
                    assert(all[w] == x);
                }
            } else {
                assert(all == rest.push(summary_of(repos[n])));
                assert(all[rest.len() as int] == last);
            }
        }
        assert forall|j: int|
            0 <= j < project_repos(repos, locs, project_id).len() implies listed_repo(
                #[trigger] project_repos(repos, locs, project_id)[j],
                repos,
                locs,
                project_id,
            ) by {
            if j < rest.len() {
                assert(all[j] == rest[j]);
                assert(project_repos(repos, locs, project_id)[j] == rest[j]);
                assert(listed_repo(rest[j], rs, ls, project_id));
                let i = choose|i: int|
                    0 <= i < rs.len() && in_project(#[trigger] ls[i], project_id) && rest[j] == (RepoSummary {
                        id: rs[i].id,
                        name: rs[i].name,
                        path: rs[i].path,
                        active: rs[i].active,
                    });
                assert(rs[i] == repos[i] && ls[i] == locs[i]);
                assert(in_project(locs[i], project_id));
            } else {
                assert(in_project(locs[n], project_id));
                assert(all[j] == last);
                assert(project_repos(repos, locs, project_id)[j] == last);
            }
        }
    } else {
        assert(project_repos(repos, locs, project_id).len() == 0);
    }
}

/// Summaries of the repos that belong to `project_id`, in registry order;
/// repos outside the home directory are skipped.
pub fn list_repos_for_project_impl(project_id: &str, repos: &[Repo], locations: &[RepoLocation]) -> (r: Vec<RepoSummary>)
    requires
        locations@.len() == repos@.len(),
    ensures
        r@ == project_repos(repos@, locations@, project_id@),
        forall|i: int|
            0 <= i < repos@.len() && in_project(#[trigger] locations@[i], project_id@) ==> r@.contains(
                (RepoSummary { id: repos@[i].id, name: repos@[i].name, path: repos@[i].path, active: repos@[i].active }),
            ),
        forall|j: int| 0 <= j < r@.len() ==> listed_repo(#[trigger] r@[j], repos@, locations@, project_id@),
{
    proof {
        lemma_project_repos_members(repos@, locations@, project_id@);
    }
    let mut result: Vec<RepoSummary> = Vec::new();
    let mut i: usize = 0;
    while i < repos.len()
        invariant
            0 <= i <= repos@.len(),
            locations@.len() == repos@.len(),
            result@ == project_repos(repos@.take(i as int), locations@.take(i as int), project_id@),
        decreases repos@.len() - i,
    {
        proof {
            assert(repos@.take(i + 1).drop_last() =~= repos@.take(i as int));
            assert(locations@.take(i + 1).drop_last() =~= locations@.take(i as int));
        }
        let loc = &locations[i];
        let matches = loc.inside_home && match &loc.project_id {
            Some(p) => str_eq(p.as_str(), project_id),
            None => false,
        };
        if matches {
            let repo = &repos[i];
            result.push(
                RepoSummary {
                    id: repo.id.clone(),
                    name: repo.name.clone(),
                    path: repo.path.clone(),
                    active: repo.active,
                },
            );
        }
        i += 1;
    }
    proof {
        assert(repos@.take(repos@.len() as int) =~= repos@);
        assert(locations@.take(locations@.len() as int) =~= locations@);
    }
    result
}

/// Paths of the active workspaces registered for `project_id`, in order.
pub open spec fn project_workspace_paths(ws: Seq<WorkspaceEntry>, project_id: Seq<char>) -> Seq<Seq<char>>
    decreases ws.len(),
{
    if ws.len() == 0 {
        Seq::empty()
    } else {
        let rest = project_workspace_paths(ws.drop_last(), project_id);
        if ws.last().active && ws.last().id@ == project_id {
            rest.push(ws.last().workspace_path@)
        } else {
            rest
        }
    }
}

/// The workspace folders a project's voice guide is written to: every active
/// workspace registered under `project_id`, in registry order.
pub fn matching_workspace_paths(project_id: &str, workspaces: &[WorkspaceEntry]) -> (r: Vec<String>)
    ensures
        r@.map_values(|s: String| s@) == project_workspace_paths(workspaces@, project_id@),
{
    let mut result: Vec<String> = Vec::new();
    let mut i: usize = 0;
    while i < workspaces.len()
        invariant
            0 <= i <= workspaces@.len(),
            result@.map_values(|s: String| s@) == project_workspace_paths(workspaces@.take(i as int), project_id@),
        decreases workspaces@.len() - i,
    {
        proof {
            assert(workspaces@.take(i + 1).drop_last() =~= workspaces@.take(i as int));
        }
        let w = &workspaces[i];
        if w.active && str_eq(w.id.as_str(), project_id) {
            let ghost before = result@;
            result.push(w.workspace_path.clone());
            proof {
                assert(result@.map_values(|s: String| s@) =~= before.map_values(|s: String| s@).push(w.workspace_path@));
            }
        }
        i += 1;
    }
    proof {
        assert(workspaces@.take(workspaces@.len() as int) =~= workspaces@);
    }
    result
}

/// Outcome of syncing a voice guide: the workspace paths written, and how many
/// workspaces are registered for the project (including those whose folder
/// no longer exists).
#[derive(Clone, Debug)]
pub struct SyncStatus {
    pub synced: Vec<String>,
    pub registered: usize,
}

/// Where a project's voice guide is to be written, and how many workspaces
/// are registered for the project: every active workspace registered under
/// `project_id` counts, and is a target unless the guide is blank.
pub fn voice_guide_sync_targets(project_id: &str, voice_guide: &str, workspaces: &[WorkspaceEntry]) -> (r: (
    Vec<String>,
    usize,
))
    ensures
        r.1 == project_workspace_paths(workspaces@, project_id@).len(),
        r.0@.map_values(|s: String| s@) == (if trimmed(voice_guide@).len() == 0 {
            Seq::empty()
        } else {
            project_workspace_paths(workspaces@, project_id@)
        }),
{
    let paths = matching_workspace_paths(project_id, workspaces);
    let registered = paths.len();
    proof {
        assert(paths@.map_values(|s: String| s@).len() == paths@.len());
    }
    if trim(voice_guide).is_empty() {
        let none: Vec<String> = Vec::new();
        proof {
            assert(none@.map_values(|s: String| s@) =~= Seq::<Seq<char>>::empty());
        }
        return (none, registered);
    }
    (paths, registered)
}

} // verus!
