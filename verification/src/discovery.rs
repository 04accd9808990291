//! Repo auto-discovery: matching the repos the GitHub App reports against
//! local clones, and keeping count of what was added, what was already
//! registered, what is not on disk and what could not be registered.
//! Scanning folders, resolving paths and writing files are left to the caller.
use vstd::prelude::*;
use crate::repos::Repo;
use crate::connection::GitHubAppRepo;
use crate::text::{lowercase, path_join, path_join_str, str_eq, to_lowercase, to_owned_string};
use crate::providers::upload_post::last_segment;

verus! {

broadcast use vstd::string::group_string_axioms;

/// Result of a discovery scan. All four lists are always present, possibly
/// empty.
#[derive(Debug)]
pub struct DiscoveryResult {
    pub added: Vec<String>,
    pub already_registered: Vec<String>,
    pub not_found_on_disk: Vec<String>,
    /// `(path, error_message)` for repos that matched but could not be
    /// registered.
    pub failed_to_register: Vec<(String, String)>,
}

impl Default for DiscoveryResult {
    fn default() -> (r: Self)
        ensures
            r.added@.len() == 0,
            r.already_registered@.len() == 0,
            r.not_found_on_disk@.len() == 0,
            r.failed_to_register@.len() == 0,
    {
        DiscoveryResult {
            added: Vec::new(),
            already_registered: Vec::new(),
            not_found_on_disk: Vec::new(),
            failed_to_register: Vec::new(),
        }
    }
}

/// Aggregated result for one project's discovery pass.
#[derive(Debug)]
pub struct ProjectDiscoveryResult {
    pub project_id: String,
    pub project_name: String,
    pub discovery: DiscoveryResult,
}

pub open spec fn strings_view(v: Seq<String>) -> Seq<Seq<char>> {
    v.map_values(|s: String| s@)
}

pub open spec fn pairs_view(v: Seq<(String, String)>) -> Seq<(Seq<char>, Seq<char>)> {
    v.map_values(|p: (String, String)| (p.0@, p.1@))
}

/// The folders searched for clones: the home folder and its usual project
/// folders; none when there is no home folder.
pub open spec fn candidate_dirs_spec(home: Option<Seq<char>>) -> Seq<Seq<char>> {
    match home {
        Some(h) => seq![
            h,
            path_join(h, "GitHub"@),
            path_join(h, "Projects"@),
            path_join(h, "Developer"@),
            path_join(h, "Code"@),
            path_join(h, "src"@),
            path_join(h, "workspace"@),
        ],
        None => Seq::empty(),
    }
}

/// The folders searched for clones under `home`.
pub fn candidate_dirs_under(home: Option<&str>) -> (r: Vec<String>)
    ensures
        strings_view(r@) == candidate_dirs_spec(crate::scheduling::opt_str_view(home)),
{
    let mut dirs: Vec<String> = Vec::new();
    match home {
        Some(h) => {
            dirs.push(to_owned_string(h));
            dirs.push(path_join_str(h, "GitHub"));
            dirs.push(path_join_str(h, "Projects"));
            dirs.push(path_join_str(h, "Developer"));
            dirs.push(path_join_str(h, "Code"));
            dirs.push(path_join_str(h, "src"));
            dirs.push(path_join_str(h, "workspace"));
        },
        None => {},
    }
    proof {
        assert(strings_view(dirs@) =~= candidate_dirs_spec(crate::scheduling::opt_str_view(home)));
    }
    dirs
}

/// The current user's home folder, as `dirs::home_dir` finds it (`None`
/// when there is none, or it is not valid UTF-8). Nothing is promised of the
/// value: it comes from the environment.
#[verifier::external_body]
fn home_dir() -> (r: Option<String>) {
    match dirs::home_dir() {
        Some(p) => match p.to_str() {
            Some(s) => Some(s.to_string()),
            None => None,
        },
        None => None,
    }
}

/// The folders searched for clones: the home folder and its usual project
/// folders, for whatever home folder the environment gives.
pub fn candidate_dirs() -> (r: Vec<String>)
    ensures
        exists|home: Option<Seq<char>>| strings_view(r@) == candidate_dirs_spec(home),
{
    let home = home_dir();
    let r = match &home {
        Some(h) => candidate_dirs_under(Some(h.as_str())),
        None => candidate_dirs_under(None),
    };
    proof {
        let h = match home {
            Some(t) => Some(t@),
            None => None,
        };
        assert(strings_view(r@) == candidate_dirs_spec(h));
    }
    r
}

/// The clone a slug maps to: among `(slug, folder)` pairs read from the
/// scanned clones' remotes, the folder of the last pair with that slug.
pub open spec fn slug_folder(entries: Seq<(String, String)>, slug: Seq<char>) -> Option<Seq<char>>
    decreases entries.len(),
{
    if entries.len() == 0 {
        None
    } else if entries.last().0@ == slug {
        Some(entries.last().1@)
    } else {
        slug_folder(entries.drop_last(), slug)
    }
}

/// The local clone of the GitHub repo `full_name`, matched by its lower-cased
/// name against the scanned `(slug, folder)` pairs.
pub fn locate_clone(entries: &[(String, String)], full_name: &str) -> (r: Option<String>)
    ensures
        crate::json::opt_string_view(r) == slug_folder(entries@, lowercase(full_name@)),
{
    let slug = to_lowercase(full_name);
    let mut i: usize = entries.len();
    proof {
        assert(entries@.take(entries@.len() as int) =~= entries@);
    }
    while i > 0
        invariant
            0 <= i <= entries@.len(),
            slug@ == lowercase(full_name@),
            slug_folder(entries@, slug@) == slug_folder(entries@.take(i as int), slug@),
        decreases i,
    {
        let ghost prefix = entries@.take(i as int);
        proof {
            assert(prefix.drop_last() =~= entries@.take(i - 1));
            assert(prefix.last() == entries@[i - 1]);
        }
        if str_eq(entries[i - 1].0.as_str(), slug.as_str()) {
            let found = to_owned_string(entries[i - 1].1.as_str());
            proof {
                assert(slug_folder(prefix, slug@) == Some(prefix.last().1@));
            }
            return Some(found);
        }
        i -= 1;
    }
    proof {
        assert(entries@.take(0) =~= Seq::<(String, String)>::empty());
    }
    None
}

/// The state of a discovery pass: the registered paths (lower-cased) and
/// the result so far.
pub struct DiscoveryState {
    pub registered: Vec<String>,
    pub result: DiscoveryResult,
}

pub open spec fn in_registered(reg: Seq<String>, p: Seq<char>) -> bool {
    exists|i: int| 0 <= i < reg.len() && #[trigger] reg[i]@ == p
}

fn contains_path(reg: &Vec<String>, p: &str) -> (r: bool)
    ensures
        r == in_registered(reg@, p@),
{
    let mut i: usize = 0;
    while i < reg.len()
        invariant
            0 <= i <= reg@.len(),
            forall|j: int| 0 <= j < i ==> #[trigger] reg@[j]@ != p@,
        decreases reg@.len() - i,
    {
        if str_eq(reg[i].as_str(), p) {
            return true;
        }
        i += 1;
    }
    false
}

impl DiscoveryState {
    /// A pass over a registry whose repos are `existing`: each path is
    /// remembered lower-cased.
    pub fn new(existing: &[Repo]) -> (s: DiscoveryState)
        ensures
            strings_view(s.registered@) == existing@.map_values(|r: Repo| lowercase(r.path@)),
            s.result.added@.len() == 0,
            s.result.already_registered@.len() == 0,
            s.result.not_found_on_disk@.len() == 0,
            s.result.failed_to_register@.len() == 0,
    {
        let mut registered: Vec<String> = Vec::new();
        let mut i: usize = 0;
        while i < existing.len()
            invariant
                0 <= i <= existing@.len(),
                strings_view(registered@) == existing@.take(i as int).map_values(|r: Repo| lowercase(r.path@)),
            decreases existing@.len() - i,
        {
            let ghost before = registered@;
            let lc = to_lowercase(existing[i].path.as_str());
            registered.push(lc);
            proof {
                assert(strings_view(registered@) =~= strings_view(before).push(lowercase(existing@[i as int].path@)));
                assert(existing@.take(i + 1).map_values(|r: Repo| lowercase(r.path@)) =~= existing@.take(
                    i as int,
                ).map_values(|r: Repo| lowercase(r.path@)).push(lowercase(existing@[i as int].path@)));
            }
            i += 1;
        }
        proof {
            assert(existing@.take(existing@.len() as int) =~= existing@);
        }
        DiscoveryState { registered, result: DiscoveryResult::default() }
    }

    /// The GitHub repo `full_name` has no local clone.
    pub fn note_not_found(&mut self, full_name: &str)
        ensures
            strings_view(final(self).result.not_found_on_disk@) == strings_view(
                old(self).result.not_found_on_disk@,
            ).push(full_name@),
            final(self).result.not_found_on_disk@.len() == old(self).result.not_found_on_disk@.len() + 1,
            final(self).result.added@ == old(self).result.added@,
            final(self).result.already_registered@ == old(self).result.already_registered@,
            final(self).result.failed_to_register@ == old(self).result.failed_to_register@,
            final(self).registered@ == old(self).registered@,
    {
        self.result.not_found_on_disk.push(to_owned_string(full_name));
        proof {
            assert(strings_view(self.result.not_found_on_disk@) =~= strings_view(
                old(self).result.not_found_on_disk@,
            ).push(full_name@));
        }
    }

    /// The clone at `dir` could not be resolved or registered (`err`).
    pub fn note_failure(&mut self, dir: &str, err: &str)
        ensures
            pairs_view(final(self).result.failed_to_register@) == pairs_view(
                old(self).result.failed_to_register@,
            ).push((dir@, err@)),
            final(self).result.failed_to_register@.len() == old(self).result.failed_to_register@.len() + 1,
            final(self).result.added@ == old(self).result.added@,
            final(self).result.already_registered@ == old(self).result.already_registered@,
            final(self).result.not_found_on_disk@ == old(self).result.not_found_on_disk@,
            final(self).registered@ == old(self).registered@,
    {
        self.result.failed_to_register.push((to_owned_string(dir), to_owned_string(err)));
        proof {
            assert(pairs_view(self.result.failed_to_register@) =~= pairs_view(
                old(self).result.failed_to_register@,
            ).push((dir@, err@)));
        }
    }

    /// Decides for the clone at the resolved path `canonical` of the GitHub
    /// repo `name`: a path already registered (compared lower-cased) is noted
    /// as such and `false` returned; otherwise `true`: it is to be registered.
    pub fn should_register(&mut self, name: &str, canonical: &str) -> (r: bool)
        ensures
            r == !in_registered(old(self).registered@, lowercase(canonical@)),
            !r ==> strings_view(final(self).result.already_registered@) == strings_view(
                old(self).result.already_registered@,
            ).push(name@),
            !r ==> final(self).result.already_registered@.len() == old(self).result.already_registered@.len() + 1,
            r ==> final(self).result.already_registered@ == old(self).result.already_registered@,
            final(self).result.added@ == old(self).result.added@,
            final(self).result.not_found_on_disk@ == old(self).result.not_found_on_disk@,
            final(self).result.failed_to_register@ == old(self).result.failed_to_register@,
            final(self).registered@ == old(self).registered@,
    {
        let lc = to_lowercase(canonical);
        if contains_path(&self.registered, lc.as_str()) {
            self.result.already_registered.push(to_owned_string(name));
            proof {
                assert(strings_view(self.result.already_registered@) =~= strings_view(
                    old(self).result.already_registered@,
                ).push(name@));
            }
            false
        } else {
            true
        }
    }

    /// Records how registering the clone at `canonical` went: on success the
    /// folder name is added and the path counts as registered from now on;
    /// on failure the error is kept with the path.
    pub fn note_registration(&mut self, canonical: &str, outcome: Result<String, String>)
        ensures
            match outcome {
                Ok(name) => final(self).result.added@ == old(self).result.added@.push(name) && strings_view(final(self).result.added@) == strings_view(old(self).result.added@).push(
                    name@,
                ) && strings_view(final(self).registered@) == strings_view(old(self).registered@).push(
                    lowercase(canonical@),
                ) && final(self).result.failed_to_register@ == old(self).result.failed_to_register@,
                Err(e) => pairs_view(final(self).result.failed_to_register@) == pairs_view(
                    old(self).result.failed_to_register@,
                ).push((canonical@, e@)) && final(self).result.failed_to_register@.len()
                    == old(self).result.failed_to_register@.len() + 1 && final(self).result.added@ == old(self).result.added@
                    && final(self).registered@ == old(self).registered@,
            },
            final(self).result.already_registered@ == old(self).result.already_registered@,
            final(self).result.not_found_on_disk@ == old(self).result.not_found_on_disk@,
    {
        match outcome {
            Ok(name) => {
                let ghost n = name@;
                self.registered.push(to_lowercase(canonical));
                self.result.added.push(name);
                proof {
                    assert(strings_view(self.registered@) =~= strings_view(old(self).registered@).push(
                        lowercase(canonical@),
                    ));
                    assert(strings_view(self.result.added@) =~= strings_view(old(self).result.added@).push(n));
                }
            },
            Err(e) => {
                let ghost ev = e@;
                self.result.failed_to_register.push((to_owned_string(canonical), e));
                proof {
                    assert(pairs_view(self.result.failed_to_register@) =~= pairs_view(
                        old(self).result.failed_to_register@,
                    ).push((canonical@, ev)));
                }
            },
        }
    }
}

/// The GitHub repos (their `full_name`s, in order) that have no local clone
/// among the scanned `(slug, folder)` pairs.
pub open spec fn missing_repos(apps: Seq<GitHubAppRepo>, scanned: Seq<(String, String)>) -> Seq<Seq<char>>
    decreases apps.len(),
{
    if apps.len() == 0 {
        Seq::empty()
    } else {
        let rest = missing_repos(apps.drop_last(), scanned);
        if slug_folder(scanned, lowercase(apps.last().full_name@)) is None {
            rest.push(apps.last().full_name@)
        } else {
            rest
        }
    }
}

/// The registered repos' paths, lower-cased.
pub open spec fn lowered_paths(repos: Seq<Repo>) -> Seq<Seq<char>> {
    repos.map_values(|x: Repo| lowercase(x.path@))
}

pub open spec fn lower_all(paths: Seq<Seq<char>>) -> Seq<Seq<char>> {
    paths.map_values(|p: Seq<char>| lowercase(p))
}

/// The resolved paths registered by a pass, one per added repo: no two are
/// the same path (compared lower-cased), none was registered before the pass
/// (`before`, lower-cased), and each added name is what `register` answered
/// for its path.
pub open spec fn added_paths_ok<R: Fn(&str) -> Result<String, String>>(
    paths: Seq<Seq<char>>,
    added: Seq<String>,
    before: Seq<Seq<char>>,
    register: R,
) -> bool {
    &&& paths.len() == added.len()
    &&& forall|i: int, j: int| 0 <= i < j < paths.len() ==> lowercase(#[trigger] paths[i]) != lowercase(#[trigger] paths[j])
    &&& forall|i: int, m: int| 0 <= i < paths.len() && 0 <= m < before.len() ==> lowercase(#[trigger] paths[i]) != #[trigger] before[m]
    &&& forall|i: int| 0 <= i < paths.len() ==> exists|p: &str|
        p@ == #[trigger] paths[i] && call_ensures(register, (p,), Ok::<String, String>(added[i]))
}

/// The number of repos a result accounts for, over its four lists.
pub open spec fn outcome_count(r: DiscoveryResult) -> nat {
    r.added@.len() + r.already_registered@.len() + r.not_found_on_disk@.len() + r.failed_to_register@.len()
}

/// One discovery pass: each GitHub App repo is looked up among the scanned
/// clones; a clone is resolved with `canonicalize`, and registered with
/// `register` unless its resolved path (compared lower-cased) is already
/// registered, before the pass or earlier in it. Every repo lands in exactly
/// one of the four lists, and no path is registered twice.
pub fn discover_repos_pass<C: Fn(&str) -> Result<String, String>, R: Fn(&str) -> Result<String, String>>(
    app_repos: &[GitHubAppRepo],
    scanned: &[(String, String)],
    existing: &[Repo],
    canonicalize: C,
    register: R,
) -> (r: DiscoveryResult)
    requires
        forall|p: &str| call_requires(canonicalize, (p,)),
        forall|p: &str| call_requires(register, (p,)),
    ensures
        outcome_count(r) == app_repos@.len(),
        strings_view(r.not_found_on_disk@) == missing_repos(app_repos@, scanned@),
        exists|paths: Seq<Seq<char>>|
            #[trigger] added_paths_ok(paths, r.added@, lowered_paths(existing@), register),
{
    let ghost before = lowered_paths(existing@);
    let mut state = DiscoveryState::new(existing);
    let ghost mut paths: Seq<Seq<char>> = Seq::empty();
    let mut k: usize = 0;
    while k < app_repos.len()
        invariant
            0 <= k <= app_repos@.len(),
            forall|p: &str| call_requires(canonicalize, (p,)),
            forall|p: &str| call_requires(register, (p,)),
            before == lowered_paths(existing@),
            strings_view(state.registered@) == before + lower_all(paths),
            outcome_count(state.result) == k,
            strings_view(state.result.not_found_on_disk@) == missing_repos(app_repos@.take(k as int), scanned@),
            added_paths_ok(paths, state.result.added@, before, register),
        decreases app_repos@.len() - k,
    {
        let app = &app_repos[k];
        proof {
            assert(app_repos@.take(k + 1).drop_last() =~= app_repos@.take(k as int));
            assert(app_repos@.take(k + 1).last() == app_repos@[k as int]);
        }
        let ghost r0 = state.result;
        let ghost p0 = paths;
        match locate_clone(scanned, app.full_name.as_str()) {
            None => {
                state.note_not_found(app.full_name.as_str());
            },
            Some(dir) => {
                match canonicalize(dir.as_str()) {
                    Err(e) => {
                        state.note_failure(dir.as_str(), e.as_str());
                    },
                    Ok(canonical) => {
                        let ghost reg0 = state.registered@;
                        if state.should_register(app.name.as_str(), canonical.as_str()) {
                            let c = canonical.as_str();
                            let outcome = register(c);
                            let ghost og = outcome;
                            state.note_registration(c, outcome);
                            proof {
                                if og is Ok {
                                    let lc = lowercase(c@);
                                    paths = p0.push(c@);
                                    assert(lower_all(paths) =~= lower_all(p0).push(lc));
                                    assert(strings_view(state.registered@) =~= before + lower_all(paths));
                                    assert(!in_registered(reg0, lc));
                                    assert(strings_view(reg0) == before + lower_all(p0));
                                    assert(strings_view(reg0).len() == reg0.len());
                                    assert(reg0.len() == before.len() + p0.len());
                                    assert forall|m: int| 0 <= m < before.len() implies before[m] != lc by {
                                        assert((before + lower_all(p0))[m] == before[m]);
                                        assert(strings_view(reg0)[m] == reg0[m]@);
                                        assert(reg0[m]@ != lc);
                                    }
                                    assert forall|i: int| 0 <= i < p0.len() implies lowercase(p0[i]) != lc by {
                                        let w = before.len() + i;
                                        assert((before + lower_all(p0))[w] == lower_all(p0)[i]);
                                        assert(strings_view(reg0)[w] == reg0[w]@);
                                        assert(reg0[w]@ != lc);
                                    }
                                    assert(state.result.added@ == r0.added@.push(og->Ok_0));
                                    assert forall|i: int, j: int| 0 <= i < j < paths.len() implies lowercase(#[trigger] paths[i]) != lowercase(#[trigger] paths[j]) by {
                                        if j == p0.len() {
                                            assert(paths[i] == p0[i]);
                                        } else {
                                            assert(paths[i] == p0[i] && paths[j] == p0[j]);
                                        }
                                    }
                                    assert forall|i: int, m: int| 0 <= i < paths.len() && 0 <= m < before.len() implies lowercase(#[trigger] paths[i]) != #[trigger] before[m] by {
                                        if i < p0.len() {
                                            assert(paths[i] == p0[i]);
                                        }
                                    }
                                    assert forall|i: int| 0 <= i < paths.len() implies exists|p: &str|
                                        p@ == #[trigger] paths[i] && call_ensures(register, (p,), Ok::<String, String>(state.result.added@[i])) by {
                                        if i < p0.len() {
                                            assert(paths[i] == p0[i]);
                                            assert(state.result.added@[i] == r0.added@[i]);
                                        } else {
                                            assert(call_ensures(register, (c,), Ok::<String, String>(state.result.added@[i])));
                                        }
                                    }
                                }
                            }
                        } else {
                        }
                    },
                }
            },
        }
        k += 1;
    }
    proof {
        assert(app_repos@.take(app_repos@.len() as int) =~= app_repos@);
    }
    state.result
}

/// The folder name of a resolved path: its last component, `None` when the
/// path ends in `/` (as the root does).
pub open spec fn folder_name_spec(canonical: Seq<char>) -> Option<Seq<char>> {
    if last_segment(canonical).len() > 0 {
        Some(last_segment(canonical))
    } else {
        None
    }
}

/// The name a registered repo is given: the folder name of its resolved path.
pub fn folder_name(canonical: &str) -> (r: Option<String>)
    ensures
        crate::json::opt_string_view(r) == folder_name_spec(canonical@),
{
    let name = crate::providers::upload_post::image_file_name(canonical);
    if name.as_str().is_empty() {
        None
    } else {
        Some(name)
    }
}

/// Whether some registered repo has exactly the path `path`, in which case
/// registering it again is skipped.
pub fn path_is_registered(repos: &[Repo], path: &str) -> (r: bool)
    ensures
        r == exists|i: int| 0 <= i < repos@.len() && #[trigger] repos@[i].path@ == path@,
{
    let mut i: usize = 0;
    while i < repos.len()
        invariant
            0 <= i <= repos@.len(),
            forall|j: int| 0 <= j < i ==> #[trigger] repos@[j].path@ != path@,
        decreases repos@.len() - i,
    {
        if str_eq(repos[i].path.as_str(), path) {
            return true;
        }
        i += 1;
    }
    false
}


pub open spec fn invalid_folder_message() -> Seq<char> {
    "invalid folder name"@
}

/// What registering a discovered clone at the resolved path `canonical`
/// comes to: its folder name, and whether the registry already has that
/// path (then nothing is written, and the name is still reported as added).
/// A path without a folder name is an error.
pub fn discovered_repo_plan(repos: &[Repo], canonical: &str) -> (r: Result<(String, bool), String>)
    ensures
        folder_name_spec(canonical@) is None ==> r is Err && r->Err_0@ == invalid_folder_message(),
        folder_name_spec(canonical@) matches Some(n) ==> r is Ok && r->Ok_0.0@ == n && r->Ok_0.1 == exists|i: int|
            0 <= i < repos@.len() && #[trigger] repos@[i].path@ == canonical@,
{
    match folder_name(canonical) {
        None => Err(to_owned_string("invalid folder name")),
        Some(name) => {
            let present = path_is_registered(repos, canonical);
            Ok((name, present))
        },
    }
}

/// Whether `id` is among `ids`.
pub open spec fn id_known(ids: Seq<String>, id: Seq<char>) -> bool {
    exists|k: int| 0 <= k < ids.len() && #[trigger] ids[k]@ == id
}

fn contains_id(ids: &[String], id: &str) -> (r: bool)
    ensures
        r == id_known(ids@, id@),
{
    let mut k: usize = 0;
    while k < ids.len()
        invariant
            0 <= k <= ids@.len(),
            forall|j: int| 0 <= j < k ==> #[trigger] ids@[j]@ != id@,
        decreases ids@.len() - k,
    {
        if str_eq(ids[k].as_str(), id) {
            return true;
        }
        k += 1;
    }
    false
}

/// The repos of a re-read registry whose IDs were not known before, in
/// registry order: those that discovery has just added, whose watchers are
/// then started.
pub fn newly_added_repos(repos: &[Repo], known_ids: &[String]) -> (r: Vec<Repo>)
    ensures
        r@ == repos@.filter(|x: Repo| !id_known(known_ids@, x.id@)),
{
    let ghost f = |x: Repo| !id_known(known_ids@, x.id@);
    let mut out: Vec<Repo> = Vec::new();
    let mut i: usize = 0;
    while i < repos.len()
        invariant
            0 <= i <= repos@.len(),
            out@ == repos@.take(i as int).filter(f),
            f == (|x: Repo| !id_known(known_ids@, x.id@)),
        decreases repos@.len() - i,
    {
        proof {
            assert(repos@.take(i + 1) =~= repos@.take(i as int).push(repos@[i as int]));
            repos@.take(i as int).lemma_filter_push(repos@[i as int], f);
        }
        let keep = !contains_id(known_ids, repos[i].id.as_str());
        if keep {
            out.push(repos[i].duplicate());
        }
        i += 1;
    }
    proof {
        assert(repos@.take(repos@.len() as int) =~= repos@);
    }
    out
}


impl ProjectDiscoveryResult {
    /// The result of one project's pass: what discovery found, or an empty
    /// result when the project's GitHub App repos could not be fetched (the
    /// pass goes on with the other projects).
    pub fn for_project(project_id: &str, project_name: &str, discovery: Option<DiscoveryResult>) -> (r: Self)
        ensures
            r.project_id@ == project_id@,
            r.project_name@ == project_name@,
            match discovery {
                Some(d) => r.discovery == d,
                None => r.discovery.added@.len() == 0 && r.discovery.already_registered@.len() == 0
                    && r.discovery.not_found_on_disk@.len() == 0 && r.discovery.failed_to_register@.len() == 0,
            },
    {
        let d = match discovery {
            Some(d) => d,
            None => DiscoveryResult::default(),
        };
        ProjectDiscoveryResult { project_id: to_owned_string(project_id), project_name: to_owned_string(project_name), discovery: d }
    }
}

} // verus!
