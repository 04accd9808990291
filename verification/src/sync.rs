//! Planning a refresh of scheduler accounts: active repos and workspaces are
//! grouped by project, and each project gets one task per provider that has a
//! credential for it.
use vstd::prelude::*;
use crate::repos::{Repo, WorkspaceEntry};
use crate::text::{join2, lemma_text_lt_total, lemma_text_lt_transitive, str_eq, text_less, text_lt, to_owned_string};

verus! {

broadcast use vstd::string::group_string_axioms;

/// A project and the config locations that belong to it.
pub type GroupView = (Seq<char>, Seq<Seq<char>>);

pub open spec fn group_index(g: Seq<GroupView>, k: Seq<char>) -> Option<int> {
    if exists|i: int| 0 <= i < g.len() && #[trigger] g[i].0 == k {
        Some(choose|i: int| 0 <= i < g.len() && #[trigger] g[i].0 == k)
    } else {
        None
    }
}

/// Adds location `v` to project `k`: appended to the project's group when it
/// has one, otherwise as a new group at the end.
pub open spec fn add_to_groups(g: Seq<GroupView>, k: Seq<char>, v: Seq<char>) -> Seq<GroupView> {
    match group_index(g, k) {
        Some(i) => g.update(i, (k, g[i].1.push(v))),
        None => g.push((k, seq![v])),
    }
}

/// Entries `(project, location)` grouped by project, groups in order of
/// first appearance and locations in entry order.
pub open spec fn grouped(entries: Seq<GroupView>) -> Seq<GroupView>
    decreases entries.len(),
{
    if entries.len() == 0 {
        Seq::empty()
    } else {
        let prev = grouped(entries.drop_last());
        add_to_groups(prev, entries.last().0, entries.last().1[0])
    }
}

pub open spec fn distinct_keys(g: Seq<GroupView>) -> bool {
    forall|i: int, j: int| 0 <= i < g.len() && 0 <= j < g.len() && i != j ==> #[trigger] g[i].0 != #[trigger] g[j].0
}

proof fn lemma_group_index(g: Seq<GroupView>, k: Seq<char>, i: int)
    requires
        distinct_keys(g),
        0 <= i < g.len(),
        g[i].0 == k,
    ensures
        group_index(g, k) == Some(i),
{
    let c = choose|c: int| 0 <= c < g.len() && #[trigger] g[c].0 == k;
    assert(g[c].0 == k);
    if c != i {
        assert(g[c].0 != g[i].0);
    }
}

proof fn lemma_add_keeps_distinct(g: Seq<GroupView>, k: Seq<char>, v: Seq<char>)
    requires
        distinct_keys(g),
    ensures
        distinct_keys(add_to_groups(g, k, v)),
{
    let r = add_to_groups(g, k, v);
    match group_index(g, k) {
        Some(i) => {
            let c = choose|c: int| 0 <= c < g.len() && #[trigger] g[c].0 == k;
            assert(g[c].0 == k);
            assert forall|a: int, b: int| 0 <= a < r.len() && 0 <= b < r.len() && a != b implies #[trigger] r[a].0 != #[trigger] r[b].0 by {
                assert(g[a].0 != g[b].0);
            }
        },
        None => {
            assert forall|a: int, b: int| 0 <= a < r.len() && 0 <= b < r.len() && a != b implies #[trigger] r[a].0 != #[trigger] r[b].0 by {
                if a < g.len() && b < g.len() {
                    assert(g[a].0 != g[b].0);
                } else if a < g.len() {
                    assert(!(g[a].0 == k));
                } else if b < g.len() {
                    assert(!(g[b].0 == k));
                }
            }
        },
    }
}

proof fn lemma_grouped_distinct(entries: Seq<GroupView>)
    ensures
        distinct_keys(grouped(entries)),
    decreases entries.len(),
{
    if entries.len() > 0 {
        lemma_grouped_distinct(entries.drop_last());
        lemma_add_keeps_distinct(grouped(entries.drop_last()), entries.last().0, entries.last().1[0]);
    }
}

pub open spec fn strings_view(v: Seq<String>) -> Seq<Seq<char>> {
    v.map_values(|s: String| s@)
}

pub open spec fn groups_view(v: Seq<(String, Vec<String>)>) -> Seq<GroupView> {
    v.map_values(|g: (String, Vec<String>)| (g.0@, strings_view(g.1@)))
}

pub open spec fn entries_view(keys: Seq<String>, vals: Seq<String>) -> Seq<GroupView> {
    Seq::new(keys.len(), |i: int| (keys[i]@, seq![vals[i]@]))
}

fn find_group(groups: &Vec<(String, Vec<String>)>, key: &str) -> (r: Option<usize>)
    ensures
        match r {
            Some(i) => i < groups@.len() && groups@[i as int].0@ == key@,
            None => forall|j: int| 0 <= j < groups@.len() ==> (#[trigger] groups@[j]).0@ != key@,
        },
{
    let mut i: usize = 0;
    while i < groups.len()
        invariant
            0 <= i <= groups@.len(),
            forall|j: int| 0 <= j < i ==> (#[trigger] groups@[j]).0@ != key@,
        decreases groups@.len() - i,
    {
        if str_eq(groups[i].0.as_str(), key) {
            return Some(i);
        }
        i += 1;
    }
    None
}

/// Groups `values[i]` under `keys[i]`: one group per distinct key, in order of
/// first appearance, each holding its values in order.
pub fn group_by_key(keys: &Vec<String>, values: &Vec<String>) -> (r: Vec<(String, Vec<String>)>)
    requires
        keys@.len() == values@.len(),
    ensures
        groups_view(r@) == grouped(entries_view(keys@, values@)),
        distinct_keys(groups_view(r@)),
{
    let mut groups: Vec<(String, Vec<String>)> = Vec::new();
    let mut n: usize = 0;
    while n < keys.len()
        invariant
            0 <= n <= keys@.len(),
            keys@.len() == values@.len(),
            groups_view(groups@) == grouped(entries_view(keys@, values@).take(n as int)),
            distinct_keys(groups_view(groups@)),
        decreases keys@.len() - n,
    {
        let ghost before = groups_view(groups@);
        let ghost e = entries_view(keys@, values@);
        proof {
            assert(e.take(n + 1).drop_last() =~= e.take(n as int));
            assert(e.take(n + 1).last() == (keys@[n as int]@, seq![values@[n as int]@]));
        }
        let key = &keys[n];
        let found = find_group(&groups, key.as_str());
        proof {
            assert(forall|j: int| 0 <= j < groups@.len() ==> #[trigger] before[j].0 == groups@[j].0@);
        }
        match found {
            Some(i) => {
                proof {
                    lemma_group_index(before, key@, i as int);
                }
                let ghost old_groups = groups@;
                let (k0, mut members) = groups.remove(i);
                let ghost old_members = members@;
                members.push(values[n].clone());
                let ghost new_entry = (k0, members);
                groups.insert(i, (k0, members));
                proof {
                    assert(groups@ =~= old_groups.update(i as int, new_entry));
                    assert(strings_view(new_entry.1@) =~= strings_view(old_members).push(values@[n as int]@));
                    assert(before[i as int] == (old_groups[i as int].0@, strings_view(old_members)));
                    assert(groups_view(groups@) =~= add_to_groups(before, key@, values@[n as int]@));
                }
            },
            None => {
                proof {
                    assert(group_index(before, key@) is None);
                }
                let mut members: Vec<String> = Vec::new();
                members.push(values[n].clone());
                groups.push((key.clone(), members));
                proof {
                    assert(strings_view(members@) =~= seq![values@[n as int]@]);
                    assert(groups_view(groups@) =~= add_to_groups(before, key@, values@[n as int]@));
                }
            },
        }
        proof {
            lemma_add_keeps_distinct(before, key@, values@[n as int]@);
        }
        n += 1;
    }
    proof {
        assert(entries_view(keys@, values@).take(keys@.len() as int) =~= entries_view(keys@, values@));
    }
    groups
}

// ── tasks ────────────────────────────────────────────────────────────────────
/// A refresh task: provider, its credential, and the config locations to update.
pub type SyncTask = (String, String, Vec<String>);

pub type TaskView = (Seq<char>, Seq<char>, Seq<Seq<char>>);

pub open spec fn task_view(t: SyncTask) -> TaskView {
    (t.0@, t.1@, strings_view(t.2@))
}

pub open spec fn opt_string_view(o: Option<String>) -> Option<Seq<char>> {
    match o {
        Some(s) => Some(s@),
        None => None,
    }
}

/// `get_credential(provider, project)` may answer `a`.
pub open spec fn answered<F: Fn(&str, &str) -> Option<String>>(
    get_credential: &F,
    provider: &str,
    project: Seq<char>,
    a: Option<Seq<char>>,
) -> bool {
    exists|k: &str, res: Option<String>|
        k@ == project && call_ensures(get_credential, (provider, k), res) && opt_string_view(res) == a
}

/// Tasks of one group: for each provider in order, one task when the
/// credential lookup answered `Some`.
pub open spec fn group_tasks(g: GroupView, providers: Seq<&str>, ans: Seq<Option<Seq<char>>>) -> Seq<TaskView>
    decreases providers.len(),
{
    if providers.len() == 0 || ans.len() == 0 {
        Seq::empty()
    } else {
        let rest = group_tasks(g, providers.drop_last(), ans.drop_last());
        match ans.last() {
            Some(key) => rest.push((providers.last()@, key, g.1)),
            None => rest,
        }
    }
}

/// Tasks of all groups, group by group.
pub open spec fn all_tasks(groups: Seq<GroupView>, providers: Seq<&str>, ans: Seq<Seq<Option<Seq<char>>>>) -> Seq<TaskView>
    decreases groups.len(),
{
    if groups.len() == 0 || ans.len() == 0 {
        Seq::empty()
    } else {
        all_tasks(groups.drop_last(), providers, ans.drop_last()) + group_tasks(groups.last(), providers, ans.last())
    }
}

pub open spec fn answers_fit<F: Fn(&str, &str) -> Option<String>>(
    get_credential: &F,
    groups: Seq<GroupView>,
    providers: Seq<&str>,
    ans: Seq<Seq<Option<Seq<char>>>>,
) -> bool {
    &&& ans.len() == groups.len()
    &&& forall|i: int| 0 <= i < ans.len() ==> (#[trigger] ans[i]).len() == providers.len()
    &&& forall|i: int, j: int|
        0 <= i < ans.len() && 0 <= j < providers.len() ==> answered(
            get_credential,
            providers[j],
            groups[i].0,
            #[trigger] ans[i][j],
        )
}

fn tasks_for_groups<F: Fn(&str, &str) -> Option<String>>(
    groups: &Vec<(String, Vec<String>)>,
    providers: &[&str],
    get_credential: &F,
) -> (r: Vec<SyncTask>)
    requires
        forall|a: &str, b: &str| call_requires(get_credential, (a, b)),
    ensures
        exists|ans: Seq<Seq<Option<Seq<char>>>>|
            answers_fit(get_credential, groups_view(groups@), providers@, ans) && r@.map_values(
                |t: SyncTask| task_view(t),
            ) == all_tasks(groups_view(groups@), providers@, ans),
{
    let mut tasks: Vec<SyncTask> = Vec::new();
    let ghost mut ans: Seq<Seq<Option<Seq<char>>>> = Seq::empty();
    let mut gi: usize = 0;
    while gi < groups.len()
        invariant
            0 <= gi <= groups@.len(),
            forall|a: &str, b: &str| call_requires(get_credential, (a, b)),
            answers_fit(get_credential, groups_view(groups@).take(gi as int), providers@, ans),
            tasks@.map_values(|t: SyncTask| task_view(t)) == all_tasks(groups_view(groups@).take(gi as int), providers@, ans),
        decreases groups@.len() - gi,
    {
        let group = &groups[gi];
        let ghost gv = groups_view(groups@)[gi as int];
        let ghost tasks_before = tasks@.map_values(|t: SyncTask| task_view(t));
        let ghost mut row: Seq<Option<Seq<char>>> = Seq::empty();
        let mut pj: usize = 0;
        while pj < providers.len()
            invariant
                0 <= pj <= providers@.len(),
                gi < groups@.len(),
                *group == groups@[gi as int],
                gv == groups_view(groups@)[gi as int],
                forall|a: &str, b: &str| call_requires(get_credential, (a, b)),
                row.len() == pj,
                forall|j: int| 0 <= j < pj ==> answered(get_credential, providers@[j], gv.0, #[trigger] row[j]),
                tasks@.map_values(|t: SyncTask| task_view(t)) == tasks_before + group_tasks(gv, providers@.take(pj as int), row),
            decreases providers@.len() - pj,
        {
            let provider = providers[pj];
            let k = group.0.as_str();
            let res = get_credential(provider, k);
            let ghost a = opt_string_view(res);
            proof {
                assert(answered(get_credential, provider, gv.0, a));
                assert(providers@.take(pj + 1).drop_last() =~= providers@.take(pj as int));
                assert(row.push(a).drop_last() =~= row);
            }
            match res {
                Some(key) => {
                    let ghost before = tasks@;
                    let t: SyncTask = (to_owned_string(provider), key, group.1.clone());
                    proof {
                        assert(strings_view(t.2@) =~= gv.1);
                    }
                    tasks.push(t);
                    proof {
                        assert(tasks@.map_values(|t: SyncTask| task_view(t)) =~= before.map_values(|t: SyncTask| task_view(t)).push(task_view(t)));
                    }
                },
                None => {},
            }
            proof {
                row = row.push(a);
            }
            pj += 1;
        }
        proof {
            assert(providers@.take(providers@.len() as int) =~= providers@);
            let g2 = groups_view(groups@).take(gi + 1);
            assert(g2.drop_last() =~= groups_view(groups@).take(gi as int));
            assert(g2.last() == gv);
            let new_ans = ans.push(row);
            assert(new_ans.drop_last() =~= ans);
            assert forall|i: int, j: int|
                0 <= i < new_ans.len() && 0 <= j < providers@.len() implies answered(
                    get_credential,
                    providers@[j],
                    g2[i].0,
                    #[trigger] new_ans[i][j],
                ) by {
                if i < ans.len() {
                    assert(g2[i] == groups_view(groups@).take(gi as int)[i]);
                }
            }
            ans = new_ans;
        }
        gi += 1;
    }
    proof {
        assert(groups_view(groups@).take(groups@.len() as int) =~= groups_view(groups@));
    }
    tasks
}

// ── repos and workspaces ─────────────────────────────────────────────────────
/// `(project, location)` of every active repo: the project is the
/// `project_id` read from its config, or the repo's own ID when there is none.
pub open spec fn repo_entries(repos: Seq<Repo>, ids: Seq<Option<String>>) -> Seq<GroupView>
    decreases repos.len(),
{
    if repos.len() == 0 || ids.len() == 0 {
        Seq::empty()
    } else {
        let rest = repo_entries(repos.drop_last(), ids.drop_last());
        let r = repos.last();
        if r.active {
            let key = match ids.last() {
                Some(p) => p@,
                None => r.id@,
            };
            rest.push((key, seq![r.path@]))
        } else {
            rest
        }
    }
}

/// `dir` joined with `config.json`, as `PathBuf::join` forms it.
pub open spec fn config_json_path(dir: Seq<char>) -> Seq<char> {
    if dir.len() == 0 {
        "config.json"@
    } else if dir.last() == '/' {
        dir + "config.json"@
    } else {
        dir + "/config.json"@
    }
}

/// `(project, config path)` of every active workspace; the project is the
/// workspace ID and the path is `{workspace}/config.json`.
pub open spec fn workspace_entries(ws: Seq<WorkspaceEntry>) -> Seq<GroupView>
    decreases ws.len(),
{
    if ws.len() == 0 {
        Seq::empty()
    } else {
        let rest = workspace_entries(ws.drop_last());
        let w = ws.last();
        if w.active {
            rest.push((w.id@, seq![config_json_path(w.workspace_path@)]))
        } else {
            rest
        }
    }
}

/// The path of `config.json` inside `dir`.
pub fn config_json_path_of(dir: &str) -> (r: String)
    ensures
        r@ == config_json_path(dir@),
{
    if dir.is_empty() {
        return to_owned_string("config.json");
    }
    let chars = crate::text::chars_of(dir);
    if chars[chars.len() - 1] == '/' {
        join2(dir, "config.json")
    } else {
        join2(dir, "/config.json")
    }
}

/// The refresh tasks for active repos: repos are grouped by project (the
/// `project_id` of their config, `config_project_ids[i]`, falling back to the
/// repo ID), and each project gets one task per provider, in the order given,
/// for which `get_credential(provider, project)` answers with a key. Inactive
/// repos are left out.
pub fn collect_sync_tasks<F: Fn(&str, &str) -> Option<String>>(
    repos: &[Repo],
    config_project_ids: &[Option<String>],
    providers: &[&str],
    get_credential: &F,
) -> (r: Vec<SyncTask>)
    requires
        config_project_ids@.len() == repos@.len(),
        forall|a: &str, b: &str| call_requires(get_credential, (a, b)),
    ensures
        exists|ans: Seq<Seq<Option<Seq<char>>>>|
            answers_fit(get_credential, grouped(repo_entries(repos@, config_project_ids@)), providers@, ans)
                && r@.map_values(|t: SyncTask| task_view(t)) == all_tasks(
                grouped(repo_entries(repos@, config_project_ids@)),
                providers@,
                ans,
            ),
{
    let mut keys: Vec<String> = Vec::new();
    let mut values: Vec<String> = Vec::new();
    let mut i: usize = 0;
    while i < repos.len()
        invariant
            0 <= i <= repos@.len(),
            config_project_ids@.len() == repos@.len(),
            keys@.len() == values@.len(),
            entries_view(keys@, values@) == repo_entries(repos@.take(i as int), config_project_ids@.take(i as int)),
        decreases repos@.len() - i,
    {
        proof {
            assert(repos@.take(i + 1).drop_last() =~= repos@.take(i as int));
            assert(config_project_ids@.take(i + 1).drop_last() =~= config_project_ids@.take(i as int));
        }
        let repo = &repos[i];
        if repo.active {
            let key = match &config_project_ids[i] {
                Some(p) => p.clone(),
                None => repo.id.clone(),
            };
            let ghost before = entries_view(keys@, values@);
            keys.push(key);
            values.push(repo.path.clone());
            proof {
                assert(entries_view(keys@, values@) =~= before.push((keys@.last()@, seq![repo.path@])));
            }
        }
        i += 1;
    }
    proof {
        assert(repos@.take(repos@.len() as int) =~= repos@);
        assert(config_project_ids@.take(repos@.len() as int) =~= config_project_ids@);
    }
    let groups = group_by_key(&keys, &values);
    tasks_for_groups(&groups, providers, get_credential)
}

/// The refresh tasks for active workspaces: workspaces are grouped by their
/// ID (the project ID), each contributing `{workspace}/config.json`, and each
/// project gets one task per provider, in the order given, for which
/// `get_credential(provider, project)` answers with a key.
pub fn collect_workspace_sync_tasks<F: Fn(&str, &str) -> Option<String>>(
    workspaces: &[WorkspaceEntry],
    providers: &[&str],
    get_credential: &F,
) -> (r: Vec<SyncTask>)
    requires
        forall|a: &str, b: &str| call_requires(get_credential, (a, b)),
    ensures
        exists|ans: Seq<Seq<Option<Seq<char>>>>|
            answers_fit(get_credential, grouped(workspace_entries(workspaces@)), providers@, ans)
                && r@.map_values(|t: SyncTask| task_view(t)) == all_tasks(
                grouped(workspace_entries(workspaces@)),
                providers@,
                ans,
            ),
{
    let mut keys: Vec<String> = Vec::new();
    let mut values: Vec<String> = Vec::new();
    let mut i: usize = 0;
    while i < workspaces.len()
        invariant
            0 <= i <= workspaces@.len(),
            keys@.len() == values@.len(),
            entries_view(keys@, values@) == workspace_entries(workspaces@.take(i as int)),
        decreases workspaces@.len() - i,
    {
        proof {
            assert(workspaces@.take(i + 1).drop_last() =~= workspaces@.take(i as int));
        }
        let w = &workspaces[i];
        if w.active {
            let ghost before = entries_view(keys@, values@);
            keys.push(w.id.clone());
            values.push(config_json_path_of(w.workspace_path.as_str()));
            proof {
                assert(entries_view(keys@, values@) =~= before.push((w.id@, seq![config_json_path(w.workspace_path@)])));
            }
        }
        i += 1;
    }
    proof {
        assert(workspaces@.take(workspaces@.len() as int) =~= workspaces@);
    }
    let groups = group_by_key(&keys, &values);
    tasks_for_groups(&groups, providers, get_credential)
}

// ── refresh results ──────────────────────────────────────────────────────────
/// Result of a refresh run: providers contacted successfully (sorted, each
/// once) and the error messages of those that could not be reached.
#[derive(Debug, Clone)]
pub struct RefreshResult {
    pub providers_synced: Vec<String>,
    pub errors: Vec<String>,
}

/// Strictly increasing in text order (so also free of repeats).
pub open spec fn strictly_sorted(v: Seq<Seq<char>>) -> bool {
    forall|i: int, j: int| 0 <= i < j < v.len() ==> text_lt(#[trigger] v[i], #[trigger] v[j])
}

/// Inserts `x` into the strictly sorted `v`, unless it is already there.
pub fn insert_sorted_unique(v: &mut Vec<String>, x: String)
    requires
        strictly_sorted(strings_view(old(v)@)),
    ensures
        strictly_sorted(strings_view(final(v)@)),
        strings_view(final(v)@).to_set() == strings_view(old(v)@).to_set().insert(x@),
{
    let ghost old_view = strings_view(v@);
    let mut i: usize = 0;
    while i < v.len()
        invariant
            0 <= i <= v@.len(),
            strings_view(v@) == old_view,
            strictly_sorted(old_view),
            forall|j: int| 0 <= j < i ==> text_lt(#[trigger] old_view[j], x@),
        ensures
            0 <= i <= v@.len(),
            strings_view(v@) == old_view,
            forall|j: int| 0 <= j < i ==> text_lt(#[trigger] old_view[j], x@),
            i < v@.len() ==> !text_lt(old_view[i as int], x@),
        decreases v@.len() - i,
    {
        if !text_less(v[i].as_str(), x.as_str()) {
            break;
        }
        i += 1;
    }
    proof {
        assert(forall|j: int| 0 <= j < old_view.len() ==> #[trigger] old_view[j] == v@[j]@);
    }
    if i < v.len() && str_eq(v[i].as_str(), x.as_str()) {
        proof {
            assert(old_view.to_set().insert(x@) =~= old_view.to_set()) by {
                assert(old_view.contains(x@)) by {
                    assert(old_view[i as int] == x@);
                }
            }
        }
        return;
    }
    proof {
        if i < old_view.len() {
            lemma_text_lt_total(old_view[i as int], x@);
            assert(text_lt(x@, old_view[i as int]));
        }
    }
    let ghost xv = x@;
    v.insert(i, x);
    proof {
        let nv = strings_view(v@);
        assert(nv =~= old_view.insert(i as int, xv));
        assert forall|a: int, b: int| 0 <= a < b < nv.len() implies text_lt(#[trigger] nv[a], #[trigger] nv[b]) by {
            if b < i {
            } else if a < i && b == i {
            } else if a < i && b > i {
                assert(nv[b] == old_view[b - 1]);
                if b - 1 == i {
                } else {
                    assert(text_lt(old_view[i as int], old_view[b - 1]));
                    lemma_text_lt_transitive(xv, old_view[i as int], old_view[b - 1]);
                }
                lemma_text_lt_transitive(old_view[a], xv, old_view[b - 1]);
            } else if a == i {
                assert(nv[b] == old_view[b - 1]);
                if b - 1 > i {
                    assert(text_lt(old_view[i as int], old_view[b - 1]));
                    lemma_text_lt_transitive(xv, old_view[i as int], old_view[b - 1]);
                }
            } else {
                assert(nv[a] == old_view[a - 1]);
                assert(nv[b] == old_view[b - 1]);
            }
        }
        assert(nv.to_set() =~= old_view.to_set().insert(xv)) by {
            assert forall|e: Seq<char>| nv.to_set().contains(e) <==> old_view.to_set().insert(xv).contains(e) by {
                if nv.contains(e) {
                    let k = choose|k: int| 0 <= k < nv.len() && nv[k] == e;
                    if k < i {
                        assert(old_view[k] == e);
                    } else if k > i {
                        assert(old_view[k - 1] == e);
                    }
                }
                if old_view.contains(e) {
                    let k = choose|k: int| 0 <= k < old_view.len() && old_view[k] == e;
                    if k < i {
                        assert(nv[k] == e);
                    } else {
                        assert(nv[k + 1] == e);
                    }
                }
                if e == xv {
                    assert(nv[i as int] == e);
                }
            }
        }
    }
}

pub open spec fn outcome_ok(o: (String, Result<(), String>)) -> bool {
    o.1 is Ok
}

/// Providers whose sync succeeded.
pub open spec fn synced_providers(outcomes: Seq<(String, Result<(), String>)>) -> Set<Seq<char>> {
    Set::new(|p: Seq<char>| exists|i: int| 0 <= i < outcomes.len() && outcomes[i].0@ == p && #[trigger] outcome_ok(outcomes[i]))
}

/// `"{provider}: {error}"` for each failed sync, in order.
pub open spec fn error_lines(outcomes: Seq<(String, Result<(), String>)>) -> Seq<Seq<char>>
    decreases outcomes.len(),
{
    if outcomes.len() == 0 {
        Seq::empty()
    } else {
        let rest = error_lines(outcomes.drop_last());
        match outcomes.last().1 {
            Ok(()) => rest,
            Err(e) => rest.push(outcomes.last().0@ + ": "@ + e@),
        }
    }
}

/// Summarises a refresh run from each task's provider and outcome: the
/// providers that succeeded at least once, sorted and without repeats, and
/// one error line per failed task, in task order.
pub fn refresh_summary(outcomes: &[(String, Result<(), String>)]) -> (r: RefreshResult)
    ensures
        strictly_sorted(strings_view(r.providers_synced@)),
        strings_view(r.providers_synced@).to_set() == synced_providers(outcomes@),
        strings_view(r.errors@) == error_lines(outcomes@),
{
    let mut synced: Vec<String> = Vec::new();
    let mut errors: Vec<String> = Vec::new();
    let mut i: usize = 0;
    while i < outcomes.len()
        invariant
            0 <= i <= outcomes@.len(),
            strictly_sorted(strings_view(synced@)),
            strings_view(synced@).to_set() == synced_providers(outcomes@.take(i as int)),
            strings_view(errors@) == error_lines(outcomes@.take(i as int)),
        decreases outcomes@.len() - i,
    {
        let ghost prefix = outcomes@.take(i as int);
        let ghost next = outcomes@.take(i + 1);
        proof {
            assert(next.drop_last() =~= prefix);
            assert(next.last() == outcomes@[i as int]);
        }
        let (provider, outcome) = &outcomes[i];
        match outcome {
            Ok(()) => {
                insert_sorted_unique(&mut synced, provider.clone());
                proof {
                    assert(synced_providers(next) =~= synced_providers(prefix).insert(provider@)) by {
                        assert forall|p: Seq<char>| synced_providers(next).contains(p) <==> synced_providers(prefix).insert(provider@).contains(p) by {
                            if synced_providers(next).contains(p) {
                                let k = choose|k: int| 0 <= k < next.len() && next[k].0@ == p && #[trigger] outcome_ok(next[k]);
                                if k < i {
                                    assert(prefix[k] == next[k]);
                                }
                            }
                            if synced_providers(prefix).contains(p) {
                                let k = choose|k: int| 0 <= k < prefix.len() && prefix[k].0@ == p && #[trigger] outcome_ok(prefix[k]);
                                assert(next[k] == prefix[k]);
                            }
                            if p == provider@ {
                                assert(outcome_ok(next[i as int]));
                            }
                        }
                    }
                    assert(error_lines(next) == error_lines(prefix));
                }
            },
            Err(e) => {
                let ghost before = errors@;
                errors.push(crate::text::join3(provider.as_str(), ": ", e.as_str()));
                proof {
                    assert(strings_view(errors@) =~= strings_view(before).push(provider@ + ": "@ + e@));
                    assert(synced_providers(next) =~= synced_providers(prefix)) by {
                        assert forall|p: Seq<char>| synced_providers(next).contains(p) <==> synced_providers(prefix).contains(p) by {
                            if synced_providers(next).contains(p) {
                                let k = choose|k: int| 0 <= k < next.len() && next[k].0@ == p && #[trigger] outcome_ok(next[k]);
                                if k < i {
                                    assert(prefix[k] == next[k]);
                                }
                            }
                            if synced_providers(prefix).contains(p) {
                                let k = choose|k: int| 0 <= k < prefix.len() && prefix[k].0@ == p && #[trigger] outcome_ok(prefix[k]);
                                assert(next[k] == prefix[k]);
                            }
                        }
                    }
                }
            },
        }
        i += 1;
    }
    proof {
        assert(outcomes@.take(outcomes@.len() as int) =~= outcomes@);
    }
    RefreshResult { providers_synced: synced, errors }
}

} // verus!
