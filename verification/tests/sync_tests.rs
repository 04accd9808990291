use postlane::repos::{Repo, WorkspaceEntry};
use postlane::sync::{collect_sync_tasks, collect_workspace_sync_tasks, config_json_path_of, group_by_key, refresh_summary};

fn make_repo(id: &str, path: &str, active: bool) -> Repo {
    Repo {
        id: id.to_string(),
        name: "test".to_string(),
        path: path.to_string(),
        active,
        added_at: "2026-01-01T00:00:00Z".to_string(),
    }
}

fn make_workspace(id: &str, path: &str, active: bool) -> WorkspaceEntry {
    WorkspaceEntry {
        id: id.to_string(),
        name: "test-workspace".to_string(),
        workspace_path: path.to_string(),
        active,
        added_at: "2026-01-01T00:00:00Z".to_string(),
        license_status: None,
        is_owner: None,
        status_updated_at: None,
    }
}

fn pid(s: &str) -> Option<String> {
    Some(s.to_string())
}

#[test]
fn collect_sync_tasks_returns_empty_for_no_repos() {
    let tasks = collect_sync_tasks(&[], &[], &["zernio"], &|_: &str, _: &str| None);
    assert!(tasks.is_empty());
}

#[test]
fn collect_sync_tasks_returns_empty_when_no_credential() {
    let repo = make_repo("r1", "/home/u/r1", true);
    let tasks = collect_sync_tasks(&[repo], &[pid("proj-1")], &["zernio"], &|_: &str, _: &str| None);
    assert!(tasks.is_empty(), "no credential → no tasks");
}

#[test]
fn collect_sync_tasks_returns_task_when_credential_present() {
    let repo = make_repo("r1", "/home/u/r1", true);
    let tasks = collect_sync_tasks(&[repo], &[pid("proj-1")], &["zernio"], &|p: &str, id: &str| {
        if p == "zernio" && id == "proj-1" {
            Some("key-abc".to_string())
        } else {
            None
        }
    });
    assert_eq!(tasks.len(), 1);
    assert_eq!(tasks[0].0, "zernio");
    assert_eq!(tasks[0].1, "key-abc");
    assert_eq!(tasks[0].2, vec!["/home/u/r1".to_string()]);
}

#[test]
fn collect_sync_tasks_groups_repos_in_same_project_into_one_task() {
    let repos = vec![make_repo("r1", "/a", true), make_repo("r2", "/b", true)];
    let ids = [pid("proj-shared"), pid("proj-shared")];
    let tasks = collect_sync_tasks(&repos, &ids, &["zernio"], &|_: &str, _: &str| Some("k".to_string()));
    assert_eq!(tasks.len(), 1, "one project → one task");
    assert_eq!(tasks[0].2.len(), 2, "both repo paths included");
}

#[test]
fn collect_sync_tasks_produces_separate_tasks_for_different_projects() {
    let repos = vec![make_repo("r1", "/a", true), make_repo("r2", "/b", true)];
    let ids = [pid("proj-A"), pid("proj-B")];
    let tasks = collect_sync_tasks(&repos, &ids, &["zernio"], &|_: &str, _: &str| Some("k".to_string()));
    assert_eq!(tasks.len(), 2, "two projects → two tasks");
}

#[test]
fn collect_sync_tasks_skips_inactive_repos() {
    let repo = make_repo("r1", "/a", false);
    let tasks = collect_sync_tasks(&[repo], &[pid("proj-1")], &["zernio"], &|_: &str, _: &str| Some("k".to_string()));
    assert!(tasks.is_empty(), "inactive repo must not produce a task");
}

#[test]
fn collect_sync_tasks_falls_back_to_repo_id_when_config_absent() {
    let repo = make_repo("fallback-id", "/a", true);
    let tasks = collect_sync_tasks(&[repo], &[None], &["zernio"], &|_: &str, id: &str| {
        if id == "fallback-id" {
            Some("k".to_string())
        } else {
            None
        }
    });
    assert_eq!(tasks.len(), 1, "repo.id used as fallback project_id");
}

#[test]
fn collect_sync_tasks_produces_one_task_per_provider_with_credential() {
    let repo = make_repo("r1", "/a", true);
    let tasks = collect_sync_tasks(&[repo], &[pid("proj-1")], &["zernio", "publer"], &|_: &str, _: &str| {
        Some("k".to_string())
    });
    assert_eq!(tasks.len(), 2, "two providers → two tasks");
    let providers: Vec<&str> = tasks.iter().map(|t| t.0.as_str()).collect();
    assert!(providers.contains(&"zernio"));
    assert!(providers.contains(&"publer"));
}

#[test]
fn collect_workspace_sync_tasks_returns_empty_for_no_workspaces() {
    let tasks = collect_workspace_sync_tasks(&[], &["zernio"], &|_: &str, _: &str| None);
    assert!(tasks.is_empty());
}

#[test]
fn collect_workspace_sync_tasks_returns_empty_when_no_credential() {
    let ws = make_workspace("proj-ws-1", "/w", true);
    let tasks = collect_workspace_sync_tasks(&[ws], &["zernio"], &|_: &str, _: &str| None);
    assert!(tasks.is_empty(), "no credential → no tasks");
}

#[test]
fn collect_workspace_sync_tasks_skips_inactive_workspace() {
    let ws = make_workspace("proj-ws-1", "/w", false);
    let tasks = collect_workspace_sync_tasks(&[ws], &["zernio"], &|_: &str, _: &str| Some("key".to_string()));
    assert!(tasks.is_empty(), "inactive workspace must not produce a task");
}

#[test]
fn collect_workspace_sync_tasks_config_path_is_workspace_config_json() {
    let ws = make_workspace("proj-ws-1", "/home/u/ws", true);
    let tasks = collect_workspace_sync_tasks(&[ws], &["zernio"], &|p: &str, id: &str| {
        if p == "zernio" && id == "proj-ws-1" {
            Some("key".to_string())
        } else {
            None
        }
    });
    assert_eq!(tasks.len(), 1);
    assert_eq!(tasks[0].2.len(), 1);
    assert_eq!(tasks[0].2[0], "/home/u/ws/config.json");
}

#[test]
fn collect_workspace_sync_tasks_credential_keyed_by_workspace_id() {
    let ws = make_workspace("proj-id-xyz", "/w", true);
    let tasks = collect_workspace_sync_tasks(&[ws], &["zernio"], &|p: &str, id: &str| {
        if p == "zernio" && id == "proj-id-xyz" {
            Some("key-xyz".to_string())
        } else {
            None
        }
    });
    assert_eq!(tasks.len(), 1);
    assert_eq!(tasks[0].1, "key-xyz", "credential key must be workspace.id (project_id)");
}

#[test]
fn collect_workspace_sync_tasks_groups_same_project_into_one_task() {
    let ws1 = make_workspace("shared-proj", "/w1", true);
    let ws2 = make_workspace("shared-proj", "/w2/", true);
    let tasks = collect_workspace_sync_tasks(&[ws1, ws2], &["zernio"], &|_: &str, _: &str| Some("key".to_string()));
    assert_eq!(tasks.len(), 1, "same project_id → one task");
    assert_eq!(tasks[0].2, vec!["/w1/config.json".to_string(), "/w2/config.json".to_string()]);
}

#[test]
fn config_json_path_joins_like_pathbuf() {
    assert_eq!(config_json_path_of(""), "config.json");
    assert_eq!(config_json_path_of("/a"), "/a/config.json");
    assert_eq!(config_json_path_of("/a/"), "/a/config.json");
}

#[test]
fn group_by_key_keeps_first_appearance_order() {
    let keys = vec!["b".to_string(), "a".to_string(), "b".to_string()];
    let vals = vec!["1".to_string(), "2".to_string(), "3".to_string()];
    let g = group_by_key(&keys, &vals);
    assert_eq!(g.len(), 2);
    assert_eq!(g[0].0, "b");
    assert_eq!(g[0].1, vec!["1".to_string(), "3".to_string()]);
    assert_eq!(g[1].0, "a");
}

#[test]
fn refresh_summary_sorts_dedups_and_lists_errors() {
    let outcomes = vec![
        ("zernio".to_string(), Ok(())),
        ("publer".to_string(), Err("timeout".to_string())),
        ("ayrshare".to_string(), Ok(())),
        ("zernio".to_string(), Ok(())),
    ];
    let r = refresh_summary(&outcomes);
    assert_eq!(r.providers_synced, vec!["ayrshare".to_string(), "zernio".to_string()]);
    assert_eq!(r.errors, vec!["publer: timeout".to_string()]);
}
