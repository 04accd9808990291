//! The repo connection-status table: repos the GitHub App reports for a
//! project merged with repos registered locally, one row per repo, with the
//! three signals (App connected, folder registered, CLI initialised).
use vstd::prelude::*;
use crate::repos::Repo;
use crate::text::{lowercase, to_lowercase, str_eq, text_less, text_lt, lemma_text_lt_total, lemma_text_lt_transitive,
    lemma_text_lt_asymmetric, lemma_text_lt_irreflexive};

verus! {

broadcast use vstd::string::group_string_axioms;

/// A repository the GitHub App can see for a project.
#[derive(Clone, Debug)]
pub struct GitHubAppRepo {
    pub id: u64,
    pub name: String,
    pub full_name: String,
    pub private: bool,
    pub html_url: String,
}

/// One row of the connection-status table.
#[derive(Clone, Debug)]
pub struct RepoConnectionStatus {
    /// The registry ID; `None` for rows known only to the GitHub App.
    pub repo_id: Option<String>,
    /// `owner/repo`, from the GitHub App or from the registered repo's remote.
    pub github_full_name: Option<String>,
    /// Local path from the registry, when the repo is registered.
    pub local_path: Option<String>,
    /// The GitHub repo name when known, else the registry name.
    pub display_name: String,
    pub github_app_connected: bool,
    pub folder_registered: bool,
    pub cli_initialized: bool,
    pub project_id_mismatch: bool,
}

/// What is on disk at `{repo}/.postlane/config.json`.
#[derive(Clone, Debug)]
pub enum CliConfig {
    /// No such file.
    Absent,
    /// The file exists but could not be read or parsed as JSON.
    Unreadable,
    /// Parsed; the `project_id` string, if it has one.
    Parsed(Option<String>),
}

/// `(cli_initialized, project_id_mismatch)`: initialised when the config file
/// exists; mismatched when it names a non-empty `project_id` other than
/// `expected`.
pub open spec fn cli_state_spec(config: CliConfig, expected: Seq<char>) -> (bool, bool) {
    match config {
        CliConfig::Absent => (false, false),
        CliConfig::Unreadable => (true, false),
        CliConfig::Parsed(stored) => match stored {
            Some(s) => (true, s@.len() > 0 && s@ != expected),
            None => (true, false),
        },
    }
}

/// Reports whether the CLI initialised a repo and whether its config belongs
/// to another project.
pub fn check_cli_state(config: &CliConfig, expected_project_id: &str) -> (r: (bool, bool))
    ensures
        r == cli_state_spec(*config, expected_project_id@),
{
    match config {
        CliConfig::Absent => (false, false),
        CliConfig::Unreadable => (true, false),
        CliConfig::Parsed(stored) => match stored {
            Some(s) => (true, !s.as_str().is_empty() && !str_eq(s.as_str(), expected_project_id)),
            None => (true, false),
        },
    }
}

/// What is known on disk of a registered repo.
#[derive(Clone, Debug)]
pub struct LocalRepoFacts {
    /// The registered path still exists.
    pub path_exists: bool,
    /// The repo's `.postlane/config.json`.
    pub config: CliConfig,
    /// The normalised `owner/repo` slug of the first GitHub remote in
    /// `.git/config`, if any.
    pub github_slug: Option<String>,
}

/// Repo `i` is eligible for slug matching: active, and not initialised for
/// another project.
pub open spec fn slug_candidate(repos: Seq<Repo>, facts: Seq<LocalRepoFacts>, project_id: Seq<char>, i: int) -> bool {
    let st = cli_state_spec(facts[i].config, project_id);
    repos[i].active && !(st.0 && st.1) && facts[i].github_slug is Some
}

/// The registered repo a slug maps to: the last eligible repo with that slug
/// (later registrations replace earlier ones).
#[verifier::opaque]
pub open spec fn slug_match(repos: Seq<Repo>, facts: Seq<LocalRepoFacts>, project_id: Seq<char>, slug: Seq<char>) -> Option<int> {
    if exists|i: int| 0 <= i < repos.len() && slug_candidate(repos, facts, project_id, i) && #[trigger] facts[i].github_slug->0@ == slug {
        Some(choose|i: int| 0 <= i < repos.len() && slug_candidate(repos, facts, project_id, i) && facts[i].github_slug->0@ == slug
            && forall|j: int| i < j < repos.len() && slug_candidate(repos, facts, project_id, j) ==> #[trigger] facts[j].github_slug->0@ != slug)
    } else {
        None
    }
}

pub open spec fn is_last_match(repos: Seq<Repo>, facts: Seq<LocalRepoFacts>, project_id: Seq<char>, slug: Seq<char>, i: int) -> bool {
    0 <= i < repos.len() && slug_candidate(repos, facts, project_id, i) && facts[i].github_slug->0@ == slug
        && forall|j: int| i < j < repos.len() && slug_candidate(repos, facts, project_id, j) ==> #[trigger] facts[j].github_slug->0@ != slug
}

proof fn lemma_last_match(repos: Seq<Repo>, facts: Seq<LocalRepoFacts>, project_id: Seq<char>, slug: Seq<char>, i: int)
    requires
        is_last_match(repos, facts, project_id, slug, i),
    ensures
        slug_match(repos, facts, project_id, slug) == Some(i),
{
    reveal(slug_match);
    let k = choose|k: int| 0 <= k < repos.len() && slug_candidate(repos, facts, project_id, k) && facts[k].github_slug->0@ == slug
        && forall|j: int| k < j < repos.len() && slug_candidate(repos, facts, project_id, j) ==> #[trigger] facts[j].github_slug->0@ != slug;
    assert(is_last_match(repos, facts, project_id, slug, i));
    if k < i {
        assert(facts[i].github_slug->0@ != slug);
    } else if k > i {
        assert(facts[k].github_slug->0@ != slug);
    }
}

/// Finds the registered repo whose remote has slug `slug`.
fn find_slug(repos: &[Repo], facts: &[LocalRepoFacts], project_id: &str, slug: &str) -> (r: Option<usize>)
    requires
        facts@.len() == repos@.len(),
    ensures
        match r {
            Some(i) => slug_match(repos@, facts@, project_id@, slug@) == Some(i as int) && i < repos@.len(),
            None => slug_match(repos@, facts@, project_id@, slug@) is None,
        },
{
    let mut i: usize = repos.len();
    while i > 0
        invariant
            0 <= i <= repos@.len(),
            facts@.len() == repos@.len(),
            forall|j: int| i <= j < repos@.len() && slug_candidate(repos@, facts@, project_id@, j) ==> #[trigger] facts@[j].github_slug->0@ != slug@,
        decreases i,
    {
        i -= 1;
        let repo = &repos[i];
        let f = &facts[i];
        let (cli, mismatch) = check_cli_state(&f.config, project_id);
        if repo.active && !(cli && mismatch) {
            match &f.github_slug {
                Some(s) => {
                    if str_eq(s.as_str(), slug) {
                        proof {
                            lemma_last_match(repos@, facts@, project_id@, slug@, i as int);
                        }
                        return Some(i);
                    }
                },
                None => {},
            }
        }
    }
    proof {
        reveal(slug_match);
        if slug_match(repos@, facts@, project_id@, slug@) is Some {
            let k = choose|k: int| 0 <= k < repos@.len() && slug_candidate(repos@, facts@, project_id@, k) && #[trigger] facts@[k].github_slug->0@ == slug@;
            assert(facts@[k].github_slug->0@ != slug@);
        }
    }
    None
}

// ── rows ─────────────────────────────────────────────────────────────────────
/// The row of a GitHub App repo, merged with the registered repo `reg` its
/// slug matched, if any.
pub open spec fn app_row(app: GitHubAppRepo, reg: Option<int>, repos: Seq<Repo>, facts: Seq<LocalRepoFacts>, project_id: Seq<char>) -> RepoConnectionStatus {
    match reg {
        Some(i) => {
            let st = cli_state_spec(facts[i].config, project_id);
            RepoConnectionStatus {
                repo_id: Some(repos[i].id),
                github_full_name: Some(app.full_name),
                local_path: Some(repos[i].path),
                display_name: app.name,
                github_app_connected: true,
                folder_registered: true,
                cli_initialized: st.0,
                project_id_mismatch: st.1,
            }
        },
        None => RepoConnectionStatus {
            repo_id: None,
            github_full_name: Some(app.full_name),
            local_path: None,
            display_name: app.name,
            github_app_connected: true,
            folder_registered: false,
            cli_initialized: false,
            project_id_mismatch: false,
        },
    }
}

pub open spec fn app_match(app: GitHubAppRepo, repos: Seq<Repo>, facts: Seq<LocalRepoFacts>, project_id: Seq<char>) -> Option<int> {
    slug_match(repos, facts, project_id, lowercase(app.full_name@))
}

/// One row per GitHub App repo, in the order the App listed them.
pub open spec fn app_rows(apps: Seq<GitHubAppRepo>, repos: Seq<Repo>, facts: Seq<LocalRepoFacts>, project_id: Seq<char>) -> Seq<RepoConnectionStatus> {
    Seq::new(apps.len(), |k: int| app_row(apps[k], app_match(apps[k], repos, facts, project_id), repos, facts, project_id))
}

/// Local path `p` is on the row of one of the first `n` GitHub App repos.
pub open spec fn matched_before(apps: Seq<GitHubAppRepo>, repos: Seq<Repo>, facts: Seq<LocalRepoFacts>, project_id: Seq<char>, n: int, p: Seq<char>) -> bool {
    exists|k: int| 0 <= k < n && #[trigger] app_match(apps[k], repos, facts, project_id) is Some
        && repos[app_match(apps[k], repos, facts, project_id)->0].path@ == p
}

/// Local paths already shown on a GitHub App row.
pub open spec fn matched_path(apps: Seq<GitHubAppRepo>, repos: Seq<Repo>, facts: Seq<LocalRepoFacts>, project_id: Seq<char>, p: Seq<char>) -> bool {
    matched_before(apps, repos, facts, project_id, apps.len() as int, p)
}

pub open spec fn in_strings(v: Seq<String>, p: Seq<char>) -> bool {
    exists|x: int| 0 <= x < v.len() && #[trigger] v[x]@ == p
}

/// Registered repo `i` gets a row of its own: it is active, not already on a
/// GitHub App row, its folder still exists, and it is not initialised for
/// another project.
pub open spec fn local_row_shown(apps: Seq<GitHubAppRepo>, repos: Seq<Repo>, facts: Seq<LocalRepoFacts>, project_id: Seq<char>, i: int) -> bool {
    let st = cli_state_spec(facts[i].config, project_id);
    repos[i].active && !matched_path(apps, repos, facts, project_id, repos[i].path@) && facts[i].path_exists && !(st.0 && st.1)
}

pub open spec fn local_row(r: Repo, f: LocalRepoFacts, project_id: Seq<char>) -> RepoConnectionStatus {
    let st = cli_state_spec(f.config, project_id);
    RepoConnectionStatus {
        repo_id: Some(r.id),
        github_full_name: f.github_slug,
        local_path: Some(r.path),
        display_name: r.name,
        github_app_connected: false,
        folder_registered: true,
        cli_initialized: st.0,
        project_id_mismatch: st.1,
    }
}

/// The local-only rows, in registry order, of the first `n` registered repos.
pub open spec fn local_rows(apps: Seq<GitHubAppRepo>, repos: Seq<Repo>, facts: Seq<LocalRepoFacts>, project_id: Seq<char>, n: int) -> Seq<RepoConnectionStatus>
    decreases n,
{
    if n <= 0 {
        Seq::empty()
    } else {
        let rest = local_rows(apps, repos, facts, project_id, n - 1);
        if local_row_shown(apps, repos, facts, project_id, n - 1) {
            rest.push(local_row(repos[n - 1], facts[n - 1], project_id))
        } else {
            rest
        }
    }
}

/// Row `a` sorts before row `b`: GitHub App rows first, then by lower-cased
/// display name.
pub open spec fn row_lt(a: RepoConnectionStatus, b: RepoConnectionStatus) -> bool {
    (a.github_app_connected && !b.github_app_connected) || (a.github_app_connected == b.github_app_connected
        && text_lt(lowercase(a.display_name@), lowercase(b.display_name@)))
}

/// No row sorts before a row that precedes it.
pub open spec fn rows_sorted(s: Seq<RepoConnectionStatus>) -> bool {
    forall|i: int, j: int| 0 <= i < j < s.len() ==> !row_lt(#[trigger] s[j], #[trigger] s[i])
}

proof fn lemma_row_lt_transitive(a: RepoConnectionStatus, b: RepoConnectionStatus, c: RepoConnectionStatus)
    requires
        row_lt(a, b),
        row_lt(b, c),
    ensures
        row_lt(a, c),
{
    if a.github_app_connected == b.github_app_connected && b.github_app_connected == c.github_app_connected {
        lemma_text_lt_transitive(lowercase(a.display_name@), lowercase(b.display_name@), lowercase(c.display_name@));
    }
}

proof fn lemma_row_lt_asymmetric(a: RepoConnectionStatus, b: RepoConnectionStatus)
    ensures
        row_lt(a, b) ==> !row_lt(b, a),
{
    lemma_text_lt_asymmetric(lowercase(a.display_name@), lowercase(b.display_name@));
}

fn row_less(a: &RepoConnectionStatus, ka: &String, b: &RepoConnectionStatus, kb: &String) -> (r: bool)
    requires
        ka@ == lowercase(a.display_name@),
        kb@ == lowercase(b.display_name@),
    ensures
        r == row_lt(*a, *b),
{
    if a.github_app_connected && !b.github_app_connected {
        return true;
    }
    a.github_app_connected == b.github_app_connected && text_less(ka.as_str(), kb.as_str())
}

pub open spec fn rows_of(v: Seq<(String, RepoConnectionStatus)>) -> Seq<RepoConnectionStatus> {
    v.map_values(|p: (String, RepoConnectionStatus)| p.1)
}

/// Inserts `row` after every row that does not sort after it, and returns
/// where it went.
fn insert_row(v: &mut Vec<(String, RepoConnectionStatus)>, row: RepoConnectionStatus) -> (p: usize)
    requires
        rows_sorted(rows_of(old(v)@)),
        forall|i: int| 0 <= i < old(v)@.len() ==> (#[trigger] old(v)@[i]).0@ == lowercase(old(v)@[i].1.display_name@),
    ensures
        rows_sorted(rows_of(final(v)@)),
        forall|i: int| 0 <= i < final(v)@.len() ==> (#[trigger] final(v)@[i]).0@ == lowercase(final(v)@[i].1.display_name@),
        rows_of(final(v)@).to_multiset() == rows_of(old(v)@).to_multiset().insert(row),
        p <= old(v)@.len(),
        rows_of(final(v)@) == rows_of(old(v)@).insert(p as int, row),
        forall|j: int| p <= j < old(v)@.len() ==> row_lt(row, #[trigger] rows_of(old(v)@)[j]),
{
    broadcast use vstd::seq_lib::group_to_multiset_ensures;
    let key = to_lowercase(row.display_name.as_str());
    let ghost old_rows = rows_of(v@);
    let mut p: usize = 0;
    while p < v.len()
        invariant
            0 <= p <= v@.len(),
            rows_of(v@) == old_rows,
            key@ == lowercase(row.display_name@),
            forall|i: int| 0 <= i < v@.len() ==> (#[trigger] v@[i]).0@ == lowercase(v@[i].1.display_name@),
            forall|i: int| 0 <= i < p ==> !row_lt(row, #[trigger] old_rows[i]),
        ensures
            0 <= p <= v@.len(),
            rows_of(v@) == old_rows,
            forall|i: int| 0 <= i < p ==> !row_lt(row, #[trigger] old_rows[i]),
            p < v@.len() ==> row_lt(row, old_rows[p as int]),
        decreases v@.len() - p,
    {
        if row_less(&row, &key, &v[p].1, &v[p].0) {
            break;
        }
        p += 1;
    }
    let ghost r0 = row;
    v.insert(p, (key, row));
    proof {
        let nv = rows_of(v@);
        assert(nv =~= old_rows.insert(p as int, r0));
        assert forall|a: int, b: int| 0 <= a < b < nv.len() implies !row_lt(#[trigger] nv[b], #[trigger] nv[a]) by {
            if b < p {
            } else if b == p {
            } else if a == p {
                assert(nv[b] == old_rows[b - 1]);
                if row_lt(old_rows[b - 1], r0) {
                    lemma_row_lt_transitive(old_rows[b - 1], r0, old_rows[p as int]);
                    if b - 1 == p {
                        lemma_row_lt_asymmetric(old_rows[p as int], old_rows[p as int]);
                    }
                }
            } else if a < p {
                assert(nv[b] == old_rows[b - 1]);
            } else {
                assert(nv[a] == old_rows[a - 1]);
                assert(nv[b] == old_rows[b - 1]);
            }
        }
        assert forall|i: int| 0 <= i < v@.len() implies (#[trigger] v@[i]).0@ == lowercase(v@[i].1.display_name@) by {
            if i < p {
            } else if i > p {
                assert(v@[i] == old(v)@[i - 1]);
            }
        }
        assert forall|j: int| p <= j < old_rows.len() implies row_lt(r0, #[trigger] old_rows[j]) by {
            if j > p {
                assert(!row_lt(old_rows[j], old_rows[p as int]));
                lemma_row_lt_negative(r0, old_rows[p as int], old_rows[j]);
            }
        }
    }
    p
}

proof fn lemma_row_lt_negative(a: RepoConnectionStatus, b: RepoConnectionStatus, c: RepoConnectionStatus)
    requires
        row_lt(a, b),
        !row_lt(c, b),
    ensures
        row_lt(a, c),
{
    if a.github_app_connected == b.github_app_connected && c.github_app_connected == b.github_app_connected {
        let (la, lb, lc) = (lowercase(a.display_name@), lowercase(b.display_name@), lowercase(c.display_name@));
        lemma_text_lt_total(lc, lb);
        if lc != lb {
            lemma_text_lt_transitive(la, lb, lc);
        }
    }
}

/// `s` is `orig` rearranged by `perm` (`s[i]` is `orig[perm[i]]`), and rows
/// of `s` that tie in the table's order keep their order in `orig`.
pub open spec fn stable_rows(orig: Seq<RepoConnectionStatus>, s: Seq<RepoConnectionStatus>, perm: Seq<int>) -> bool {
    &&& perm.len() == s.len()
    &&& s.len() == orig.len()
    &&& forall|i: int| 0 <= i < s.len() ==> 0 <= #[trigger] perm[i] < orig.len() && s[i] == orig[perm[i]]
    &&& forall|i: int, j: int| 0 <= i < j < s.len() ==> #[trigger] perm[i] != #[trigger] perm[j]
    &&& forall|k: int| 0 <= k < orig.len() ==> #[trigger] perm.contains(k)
    &&& forall|i: int, j: int|
        0 <= i < j < s.len() && !row_lt(#[trigger] s[i], #[trigger] s[j]) ==> perm[i] < perm[j]
}

/// Inserting the next row of `orig` at a place after which every row sorts
/// after it keeps the arrangement stable.
proof fn lemma_stable_insert(
    d0: Seq<RepoConnectionStatus>,
    s0: Seq<RepoConnectionStatus>,
    pm0: Seq<int>,
    x: RepoConnectionStatus,
    p: int,
)
    requires
        stable_rows(d0, s0, pm0),
        0 <= p <= s0.len(),
        forall|j: int| p <= j < s0.len() ==> row_lt(x, #[trigger] s0[j]),
    ensures
        stable_rows(d0.push(x), s0.insert(p, x), pm0.insert(p, d0.len() as int)),
{
    let done = d0.push(x);
    let s1 = s0.insert(p, x);
    let k = d0.len() as int;
    let perm = pm0.insert(p, k);
    assert forall|i: int| 0 <= i < s1.len() implies 0 <= #[trigger] perm[i] < done.len() && s1[i] == done[perm[i]] by {
        if i < p {
            assert(s1[i] == s0[i]);
            assert(perm[i] == pm0[i]);
        } else if i == p {
        } else {
            assert(s1[i] == s0[i - 1]);
            assert(perm[i] == pm0[i - 1]);
        }
    }
    assert forall|i: int, j: int| 0 <= i < j < s1.len() implies #[trigger] perm[i] != #[trigger] perm[j] by {
        if i != p && j != p {
            let oi = if i < p { i } else { i - 1 };
            let oj = if j < p { j } else { j - 1 };
            assert(perm[i] == pm0[oi]);
            assert(perm[j] == pm0[oj]);
        }
        if i == p {
            assert(perm[j] == pm0[j - 1]);
        }
        if j == p {
            assert(perm[i] == pm0[i]);
        }
    }
    assert forall|kk: int| 0 <= kk < done.len() implies #[trigger] perm.contains(kk) by {
        if kk == k {
            assert(perm[p] == k);
        } else {
            assert(pm0.contains(kk));
            let w = choose|w: int| 0 <= w < pm0.len() && pm0[w] == kk;
            if w < p {
                assert(perm[w] == kk);
            } else {
                assert(perm[w + 1] == kk);
            }
        }
    }
    assert forall|i: int, j: int|
        0 <= i < j < s1.len() && !row_lt(#[trigger] s1[i], #[trigger] s1[j]) implies perm[i] < perm[j] by {
        if i != p && j != p {
            let oi = if i < p { i } else { i - 1 };
            let oj = if j < p { j } else { j - 1 };
            assert(perm[i] == pm0[oi] && s1[i] == s0[oi]);
            assert(perm[j] == pm0[oj] && s1[j] == s0[oj]);
        } else if i == p {
            assert(s1[j] == s0[j - 1]);
            assert(row_lt(x, s0[j - 1]));
        } else {
            assert(perm[i] == pm0[i]);
        }
    }
}

proof fn lemma_ms_push<T>(a: Seq<T>, b: Seq<T>, x: T)
    ensures
        (a + b.push(x)).to_multiset() =~= (a + b).to_multiset().insert(x),
{
    broadcast use vstd::multiset::group_multiset_axioms;
    vstd::seq_lib::lemma_multiset_commutative(a, b.push(x));
    vstd::seq_lib::lemma_multiset_commutative(a, b);
    vstd::seq_lib::to_multiset_build(b, x);
}

proof fn lemma_matched_before_succ(
    apps: Seq<GitHubAppRepo>,
    repos: Seq<Repo>,
    fs: Seq<LocalRepoFacts>,
    pid: Seq<char>,
    k: int,
    p: Seq<char>,
)
    requires
        0 <= k < apps.len(),
    ensures
        matched_before(apps, repos, fs, pid, k + 1, p) <==> (matched_before(apps, repos, fs, pid, k, p) || (
        app_match(apps[k], repos, fs, pid) is Some && repos[app_match(apps[k], repos, fs, pid)->0].path@ == p)),
{
    if matched_before(apps, repos, fs, pid, k + 1, p) {
        let j = choose|j: int| 0 <= j < k + 1 && #[trigger] app_match(apps[j], repos, fs, pid) is Some
            && repos[app_match(apps[j], repos, fs, pid)->0].path@ == p;
        if j < k {
            assert(matched_before(apps, repos, fs, pid, k, p));
        }
    }
    if matched_before(apps, repos, fs, pid, k, p) {
        let j = choose|j: int| 0 <= j < k && #[trigger] app_match(apps[j], repos, fs, pid) is Some
            && repos[app_match(apps[j], repos, fs, pid)->0].path@ == p;
        assert(0 <= j < k + 1);
    }
    if app_match(apps[k], repos, fs, pid) is Some && repos[app_match(apps[k], repos, fs, pid)->0].path@ == p {
        assert(0 <= k < k + 1);
    }
}

proof fn lemma_in_strings_push(v: Seq<String>, s: String, p: Seq<char>)
    ensures
        in_strings(v.push(s), p) <==> (in_strings(v, p) || s@ == p),
{
    let w = v.push(s);
    if in_strings(w, p) {
        let x = choose|x: int| 0 <= x < w.len() && #[trigger] w[x]@ == p;
        if x < v.len() {
            assert(v[x]@ == p);
        }
    }
    if in_strings(v, p) {
        let x = choose|x: int| 0 <= x < v.len() && #[trigger] v[x]@ == p;
        assert(w[x]@ == p);
    }
    if s@ == p {
        assert(w[v.len() as int]@ == p);
    }
}

proof fn lemma_matched_step(
    apps: Seq<GitHubAppRepo>,
    repos: Seq<Repo>,
    fs: Seq<LocalRepoFacts>,
    pid: Seq<char>,
    k: int,
    before: Seq<String>,
    after: Seq<String>,
)
    requires
        0 <= k < apps.len(),
        forall|p: Seq<char>| #[trigger] in_strings(before, p) <==> matched_before(apps, repos, fs, pid, k, p),
        match app_match(apps[k], repos, fs, pid) {
            Some(m) => 0 <= m < repos.len() && after.len() == before.len() + 1 && after.drop_last() == before
                && after.last()@ == repos[m].path@,
            None => after == before,
        },
    ensures
        forall|p: Seq<char>| #[trigger] in_strings(after, p) <==> matched_before(apps, repos, fs, pid, k + 1, p),
{
    assert forall|p: Seq<char>| #[trigger] in_strings(after, p) <==> matched_before(apps, repos, fs, pid, k + 1, p) by {
        lemma_matched_before_succ(apps, repos, fs, pid, k, p);
        assert(in_strings(before, p) <==> matched_before(apps, repos, fs, pid, k, p));
        if app_match(apps[k], repos, fs, pid) is Some {
            assert(after =~= before.push(after.last()));
            lemma_in_strings_push(before, after.last(), p);
        }
    }
}

fn contains_string(v: &Vec<String>, x: &str) -> (r: bool)
    ensures
        r == in_strings(v@, x@),
{
    let mut i: usize = 0;
    while i < v.len()
        invariant
            0 <= i <= v@.len(),
            forall|j: int| 0 <= j < i ==> #[trigger] v@[j]@ != x@,
        decreases v@.len() - i,
    {
        if str_eq(v[i].as_str(), x) {
            return true;
        }
        i += 1;
    }
    false
}

/// Merges the repos the GitHub App reports with the locally registered ones
/// into one table. A registered repo whose remote slug matches an App repo's
/// `full_name` (lower-cased) shares that App repo's row; a registered repo
/// initialised for another project is not matched. The remaining registered
/// repos get rows of their own when active, still on disk and not initialised
/// for another project. The table holds exactly these rows, GitHub App rows
/// first, each part ordered by lower-cased display name; rows that tie keep
/// their order (App repos as listed, then registered repos as listed).
pub fn merge_into_rows(
    app_repos: &[GitHubAppRepo],
    registered: &[Repo],
    facts: &[LocalRepoFacts],
    project_id: &str,
) -> (r: Vec<RepoConnectionStatus>)
    requires
        facts@.len() == registered@.len(),
    ensures
        rows_sorted(r@),
        r@.to_multiset() == (app_rows(app_repos@, registered@, facts@, project_id@) + local_rows(
            app_repos@,
            registered@,
            facts@,
            project_id@,
            registered@.len() as int,
        )).to_multiset(),
        exists|perm: Seq<int>|
            stable_rows(
                app_rows(app_repos@, registered@, facts@, project_id@) + local_rows(
                    app_repos@,
                    registered@,
                    facts@,
                    project_id@,
                    registered@.len() as int,
                ),
                r@,
                perm,
            ),
{
    broadcast use vstd::seq_lib::group_to_multiset_ensures;
    let ghost mut done: Seq<RepoConnectionStatus> = Seq::empty();
    let ghost mut perm: Seq<int> = Seq::empty();
    let ghost apps = app_repos@;
    let ghost repos = registered@;
    let ghost fs = facts@;
    let ghost pid = project_id@;
    let mut sorted: Vec<(String, RepoConnectionStatus)> = Vec::new();
    let mut matched: Vec<String> = Vec::new();
    let mut k: usize = 0;
    while k < app_repos.len()
        invariant
            0 <= k <= apps.len(),
            apps == app_repos@,
            repos == registered@,
            fs == facts@,
            pid == project_id@,
            fs.len() == repos.len(),
            rows_sorted(rows_of(sorted@)),
            forall|i: int| 0 <= i < sorted@.len() ==> (#[trigger] sorted@[i]).0@ == lowercase(sorted@[i].1.display_name@),
            rows_of(sorted@).to_multiset() == app_rows(apps, repos, fs, pid).take(k as int).to_multiset(),
            done == app_rows(apps, repos, fs, pid).take(k as int),
            stable_rows(done, rows_of(sorted@), perm),
            forall|p: Seq<char>| #[trigger] in_strings(matched@, p) <==> matched_before(apps, repos, fs, pid, k as int, p),
        decreases apps.len() - k,
    {
        let app = &app_repos[k];
        let slug = to_lowercase(app.full_name.as_str());
        let reg = find_slug(registered, facts, project_id, slug.as_str());
        let row = match reg {
            Some(i) => {
                let (cli, mismatch) = check_cli_state(&facts[i].config, project_id);
                let ghost before = matched@;
                matched.push(registered[i].path.clone());
                proof {
                    assert(app_match(apps[k as int], repos, fs, pid) == Some(i as int));
                    assert(matched@.drop_last() =~= before);
                    lemma_matched_step(apps, repos, fs, pid, k as int, before, matched@);
                }
                RepoConnectionStatus {
                    repo_id: Some(registered[i].id.clone()),
                    github_full_name: Some(app.full_name.clone()),
                    local_path: Some(registered[i].path.clone()),
                    display_name: app.name.clone(),
                    github_app_connected: true,
                    folder_registered: true,
                    cli_initialized: cli,
                    project_id_mismatch: mismatch,
                }
            },
            None => {
                proof {
                    lemma_matched_step(apps, repos, fs, pid, k as int, matched@, matched@);
                }
                RepoConnectionStatus {
                    repo_id: None,
                    github_full_name: Some(app.full_name.clone()),
                    local_path: None,
                    display_name: app.name.clone(),
                    github_app_connected: true,
                    folder_registered: false,
                    cli_initialized: false,
                    project_id_mismatch: false,
                }
            },
        };
        proof {
            assert(row == app_rows(apps, repos, fs, pid)[k as int]);
            assert(app_rows(apps, repos, fs, pid).take(k + 1) =~= app_rows(apps, repos, fs, pid).take(k as int).push(row));
            vstd::seq_lib::to_multiset_build(app_rows(apps, repos, fs, pid).take(k as int), row);
        }
        let ghost s0 = rows_of(sorted@);
        let ghost rg = row;
        let p = insert_row(&mut sorted, row);
        proof {
            lemma_stable_insert(done, s0, perm, rg, p as int);
            perm = perm.insert(p as int, done.len() as int);
            done = done.push(rg);
        }
        k += 1;
    }
    proof {
        assert(app_rows(apps, repos, fs, pid).take(apps.len() as int) =~= app_rows(apps, repos, fs, pid));
    }
    let ghost all_app = app_rows(apps, repos, fs, pid);
    let mut i: usize = 0;
    while i < registered.len()
        invariant
            0 <= i <= repos.len(),
            apps == app_repos@,
            repos == registered@,
            fs == facts@,
            pid == project_id@,
            fs.len() == repos.len(),
            all_app == app_rows(apps, repos, fs, pid),
            rows_sorted(rows_of(sorted@)),
            forall|x: int| 0 <= x < sorted@.len() ==> (#[trigger] sorted@[x]).0@ == lowercase(sorted@[x].1.display_name@),
            rows_of(sorted@).to_multiset() == (all_app + local_rows(apps, repos, fs, pid, i as int)).to_multiset(),
            done == all_app + local_rows(apps, repos, fs, pid, i as int),
            stable_rows(done, rows_of(sorted@), perm),
            forall|p: Seq<char>| #[trigger] in_strings(matched@, p) <==> matched_path(apps, repos, fs, pid, p),
        decreases repos.len() - i,
    {
        let repo = &registered[i];
        let f = &facts[i];
        let (cli, mismatch) = check_cli_state(&f.config, project_id);
        let already = contains_string(&matched, repo.path.as_str());
        if repo.active && !already && f.path_exists && !(cli && mismatch) {
            let row = RepoConnectionStatus {
                repo_id: Some(repo.id.clone()),
                github_full_name: match &f.github_slug {
                    Some(s) => Some(s.clone()),
                    None => None,
                },
                local_path: Some(repo.path.clone()),
                display_name: repo.name.clone(),
                github_app_connected: false,
                folder_registered: true,
                cli_initialized: cli,
                project_id_mismatch: mismatch,
            };
            proof {
                assert(local_row_shown(apps, repos, fs, pid, i as int));
                assert(row == local_row(repos[i as int], fs[i as int], pid));
                lemma_ms_push(all_app, local_rows(apps, repos, fs, pid, i as int), row);
                assert(all_app + local_rows(apps, repos, fs, pid, i + 1) =~= done.push(row));
            }
            let ghost s0 = rows_of(sorted@);
            let ghost rg = row;
            let p = insert_row(&mut sorted, row);
            proof {
                lemma_stable_insert(done, s0, perm, rg, p as int);
                perm = perm.insert(p as int, done.len() as int);
                done = done.push(rg);
            }
        } else {
            proof {
                assert(!local_row_shown(apps, repos, fs, pid, i as int));
            }
        }
        i += 1;
    }
    let mut result: Vec<RepoConnectionStatus> = Vec::new();
    let mut j: usize = 0;
    while j < sorted.len()
        invariant
            0 <= j <= sorted@.len(),
            result@ == rows_of(sorted@).take(j as int),
        decreases sorted@.len() - j,
    {
        let row = sorted[j].1.clone_row();
        result.push(row);
        proof {
            assert(rows_of(sorted@).take(j + 1) =~= rows_of(sorted@).take(j as int).push(sorted@[j as int].1));
        }
        j += 1;
    }
    proof {
        assert(rows_of(sorted@).take(sorted@.len() as int) =~= rows_of(sorted@));
        assert(stable_rows(done, result@, perm));
    }
    result
}

impl RepoConnectionStatus {
    /// A field-for-field copy.
    pub fn clone_row(&self) -> (r: RepoConnectionStatus)
        ensures
            r == *self,
    {
        RepoConnectionStatus {
            repo_id: match &self.repo_id {
                Some(s) => Some(s.clone()),
                None => None,
            },
            github_full_name: match &self.github_full_name {
                Some(s) => Some(s.clone()),
                None => None,
            },
            local_path: match &self.local_path {
                Some(s) => Some(s.clone()),
                None => None,
            },
            display_name: self.display_name.clone(),
            github_app_connected: self.github_app_connected,
            folder_registered: self.folder_registered,
            cli_initialized: self.cli_initialized,
            project_id_mismatch: self.project_id_mismatch,
        }
    }
}

} // verus!
