use postlane::repos::{
    check_repo_health_impl, find_repo_index, list_repos_for_project_impl, matching_workspace_paths,
    migrate_repos_to_v2, register_repo, remove_repo_impl, set_repo_active_impl, set_repo_path,
    unregister_repo_impl, voice_guide_sync_targets, Repo, RepoLocation, ReposConfig, WorkspaceEntry,
    REPOS_CONFIG_VERSION, with_schema_v2_flag,
};
use postlane::json::JsonValue;

fn make_repo(id: &str, active: bool, path: &str) -> Repo {
    Repo {
        id: id.to_string(),
        name: "test-repo".to_string(),
        path: path.to_string(),
        active,
        added_at: "2026-01-01T00:00:00Z".to_string(),
    }
}

fn make_ws(id: &str, path: &str, active: bool) -> WorkspaceEntry {
    WorkspaceEntry {
        id: id.to_string(),
        name: "ws".to_string(),
        workspace_path: path.to_string(),
        active,
        added_at: "2026-01-01T00:00:00Z".to_string(),
        license_status: None,
        is_owner: None,
        status_updated_at: None,
    }
}

fn config(repos: Vec<Repo>) -> ReposConfig {
    ReposConfig { version: REPOS_CONFIG_VERSION, workspaces: vec![], repos }
}

#[test]
fn test_unregister_repo_returns_error_when_id_not_found() {
    let mut state = config(vec![]);
    let result = unregister_repo_impl("nonexistent-id", &mut state);
    assert!(result.is_err(), "unknown repo_id must return Err");
    assert!(result.unwrap_err().contains("not found"));
}

#[test]
fn test_unregister_repo_removes_entry_from_repos_json() {
    let mut state = config(vec![make_repo("r1", true, "/home/u/a"), make_repo("r2", true, "/tmp/other")]);
    unregister_repo_impl("r1", &mut state).expect("ok");
    assert!(!state.repos.iter().any(|r| r.id == "r1"), "r1 must be removed");
    assert!(state.repos.iter().any(|r| r.id == "r2"), "r2 must be retained");
}

#[test]
fn test_remove_repo_returns_err_for_unknown_id() {
    let mut state = config(vec![]);
    let result = remove_repo_impl("no-such-id", &mut state);
    assert!(result.is_err(), "must err for unknown id");
    assert_eq!(result.unwrap_err(), "Repo with id 'no-such-id' not found");
}

#[test]
fn test_remove_repo_removes_from_state() {
    let mut state = config(vec![make_repo("r1", true, "/some/path")]);
    remove_repo_impl("r1", &mut state).expect("remove must succeed");
    assert!(state.repos.is_empty(), "repo must be removed from state");
}

#[test]
fn remove_repo_removes_only_first_match_and_keeps_order() {
    let mut state = config(vec![
        make_repo("a", true, "/1"),
        make_repo("b", true, "/2"),
        make_repo("a", true, "/3"),
        make_repo("c", true, "/4"),
    ]);
    remove_repo_impl("a", &mut state).unwrap();
    let ids: Vec<(&str, &str)> = state.repos.iter().map(|r| (r.id.as_str(), r.path.as_str())).collect();
    assert_eq!(ids, vec![("b", "/2"), ("a", "/3"), ("c", "/4")]);
}

#[test]
fn test_set_repo_active_returns_err_for_unknown_id() {
    let mut state = config(vec![]);
    let result = set_repo_active_impl("no-such-id", true, &mut state);
    assert!(result.is_err(), "must err for unknown id");
    assert!(result.unwrap_err().contains("not found"));
}

#[test]
fn test_set_repo_active_sets_active_true() {
    let mut state = config(vec![make_repo("r1", false, "/some/path")]);
    set_repo_active_impl("r1", true, &mut state).expect("must succeed");
    assert!(state.repos[0].active, "repo must now be active");
}

#[test]
fn test_set_repo_active_sets_active_false() {
    let mut state = config(vec![make_repo("r1", true, "/some/path")]);
    set_repo_active_impl("r1", false, &mut state).expect("must succeed");
    assert!(!state.repos[0].active, "repo must now be inactive");
    assert_eq!(state.repos[0].path, "/some/path");
}

#[test]
fn test_check_repo_health_returns_empty_for_no_repos() {
    let state = config(vec![]);
    let result = check_repo_health_impl(&state, &[]);
    assert!(result.is_empty(), "no repos → empty health list");
}

#[test]
fn test_check_repo_health_reachable_when_config_exists() {
    let state = config(vec![make_repo("r1", true, "/home/u/r1")]);
    let result = check_repo_health_impl(&state, &[true]);
    assert_eq!(result.len(), 1);
    assert!(result[0].reachable, "repo with config.json must be reachable");
    assert_eq!(result[0].id, "r1");
    assert_eq!(result[0].path, "/home/u/r1");
}

#[test]
fn test_check_repo_health_not_reachable_when_config_absent() {
    let state = config(vec![make_repo("r2", true, "/home/u/r2")]);
    let result = check_repo_health_impl(&state, &[false]);
    assert_eq!(result.len(), 1);
    assert!(!result[0].reachable, "repo without config.json must not be reachable");
}

#[test]
fn test_update_repo_path_returns_err_for_unknown_repo_id() {
    let mut state = config(vec![]);
    let result = set_repo_path("no-such-id", "/new", &mut state);
    assert!(result.is_err(), "must err for unknown repo id");
}

#[test]
fn test_update_repo_path_updates_path_in_state() {
    let mut state = config(vec![Repo {
        id: "r1".to_string(),
        name: "r".to_string(),
        path: "/old/path".to_string(),
        active: true,
        added_at: "2026-01-01T00:00:00Z".to_string(),
    }]);
    set_repo_path("r1", "/new/path", &mut state).expect("update should succeed");
    assert_eq!(state.repos[0].path, "/new/path");
    assert_eq!(state.repos[0].name, "r");
}

#[test]
fn test_add_repo_adds_repo_to_state() {
    let mut state = config(vec![]);
    let repo = register_repo(
        &mut state,
        "id-1".to_string(),
        "name".to_string(),
        "/p".to_string(),
        "2026-01-01T00:00:00Z".to_string(),
    );
    assert!(repo.active, "new repo must be active");
    assert_eq!(state.repos.len(), 1, "state must contain the new repo");
    assert_eq!(state.repos[0].id, repo.id);
}

#[test]
fn find_repo_index_finds_first() {
    let repos = vec![make_repo("x", true, "/1"), make_repo("y", true, "/2"), make_repo("y", true, "/3")];
    assert_eq!(find_repo_index(&repos, "y"), Some(1));
    assert_eq!(find_repo_index(&repos, "z"), None);
}

#[test]
fn test_v1_repos_json_migrated_to_v2_on_launch() {
    let original = ReposConfig {
        version: 1,
        workspaces: vec![],
        repos: vec![Repo {
            id: "r-1".to_string(),
            name: "frontend".to_string(),
            path: "/code/org/frontend".to_string(),
            active: true,
            added_at: "2026-01-01T00:00:00Z".to_string(),
        }],
    };
    let config = migrate_repos_to_v2(original).expect("v1 must be migrated");
    assert_eq!(config.version, REPOS_CONFIG_VERSION, "version must be 2 after migration");
    assert!(config.workspaces.is_empty(), "workspaces must be empty on first migration");
    assert_eq!(config.repos.len(), 1, "repos array must be preserved");
    assert_eq!(config.repos[0].id, "r-1");
    assert_eq!(config.repos[0].name, "frontend");

    let state = with_schema_v2_flag(JsonValue::Null);
    assert!(matches!(state.get("repos_schema_v2"), Some(JsonValue::Bool(true))), "repos_schema_v2 flag must be true");
}

#[test]
fn schema_v2_flag_keeps_other_app_state_members() {
    let state = JsonValue::Object(vec![
        ("theme".to_string(), JsonValue::Str("dark".to_string())),
        ("repos_schema_v2".to_string(), JsonValue::Bool(false)),
    ]);
    let updated = with_schema_v2_flag(state);
    assert!(matches!(updated.get("theme"), Some(JsonValue::Str(t)) if t == "dark"));
    assert!(matches!(updated.get("repos_schema_v2"), Some(JsonValue::Bool(true))));
    match updated {
        JsonValue::Object(entries) => assert_eq!(entries.len(), 2),
        other => panic!("expected an object, got {:?}", other),
    }
}

#[test]
fn test_v2_repos_json_skips_migration() {
    let v2 = ReposConfig { version: 2, workspaces: vec![make_ws("ws-1", "/code/myorg", true)], repos: vec![] };
    assert!(migrate_repos_to_v2(v2).is_none());
}

#[test]
fn test_migration_is_idempotent() {
    let v1 = ReposConfig { version: 1, workspaces: vec![], repos: vec![] };
    let once = migrate_repos_to_v2(v1).expect("migrated");
    assert_eq!(once.version, REPOS_CONFIG_VERSION);
    assert!(migrate_repos_to_v2(once).is_none());
}

fn loc(inside_home: bool, pid: Option<&str>) -> RepoLocation {
    RepoLocation { inside_home, project_id: pid.map(|s| s.to_string()) }
}

#[test]
fn test_list_repos_for_project_returns_matching_repos() {
    let repos = vec![make_repo("r1", true, "/home/u/a")];
    let result = list_repos_for_project_impl("proj-abc", &repos, &[loc(true, Some("proj-abc"))]);
    assert_eq!(result.len(), 1);
    assert_eq!(result[0].id, "r1");
}

#[test]
fn test_list_repos_for_project_excludes_other_projects() {
    let repos = vec![make_repo("r1", true, "/home/u/a"), make_repo("r2", true, "/home/u/b")];
    let locs = [loc(true, Some("proj-abc")), loc(true, Some("proj-xyz"))];
    let result = list_repos_for_project_impl("proj-abc", &repos, &locs);
    assert_eq!(result.len(), 1);
    assert_eq!(result[0].id, "r1");
}

#[test]
fn test_list_repos_for_project_returns_empty_when_no_repos_match() {
    let repos = vec![make_repo("r1", true, "/home/u/a")];
    let result = list_repos_for_project_impl("proj-abc", &repos, &[loc(true, Some("proj-other"))]);
    assert!(result.is_empty());
}

#[test]
fn test_list_repos_for_project_skips_repos_outside_home() {
    let repos = vec![make_repo("r1", true, "/tmp/outside-home-repo")];
    let result = list_repos_for_project_impl("proj-abc", &repos, &[loc(false, Some("proj-abc"))]);
    assert!(result.is_empty(), "repos outside $HOME must be skipped");
}

#[test]
fn test_list_repos_for_project_returns_empty_when_no_config_json() {
    let repos = vec![make_repo("r1", true, "/home/u/a")];
    let result = list_repos_for_project_impl("proj-abc", &repos, &[loc(true, None)]);
    assert!(result.is_empty(), "repo without config.json must be excluded");
}

#[test]
fn matching_workspace_paths_keeps_active_ones_of_the_project() {
    let ws = vec![
        make_ws("p1", "/w/a", true),
        make_ws("p2", "/w/b", true),
        make_ws("p1", "/w/c", false),
        make_ws("p1", "/w/d", true),
    ];
    assert_eq!(matching_workspace_paths("p1", &ws), vec!["/w/a", "/w/d"]);
}

#[test]
fn test_sync_no_workspaces_returns_empty_vec() {
    let (paths, registered) = voice_guide_sync_targets("proj-1", "guide", &[]);
    assert!(paths.is_empty());
    assert_eq!(registered, 0);
}

#[test]
fn test_sync_skips_non_matching_project() {
    let ws = vec![make_ws("proj-other", "/w/a", true)];
    let (paths, registered) = voice_guide_sync_targets("proj-1", "guide", &ws);
    assert!(paths.is_empty());
    assert_eq!(registered, 0);
}

#[test]
fn test_sync_skips_whitespace_only_voice_guide() {
    let ws = vec![make_ws("proj-1", "/w/a", true)];
    let (paths, registered) = voice_guide_sync_targets("proj-1", "  \n\t ", &ws);
    assert!(paths.is_empty());
    assert_eq!(registered, 1);
    let (paths, _) = voice_guide_sync_targets("proj-1", " guide ", &ws);
    assert_eq!(paths, vec!["/w/a"]);
}

#[test]
fn new_discovered_repo_gets_a_v4_uuid_and_a_timestamp() {
    let r = postlane::repos::new_discovered_repo("app".to_string(), "/code/app".to_string());
    assert_eq!(r.id.len(), 36);
    assert_eq!(&r.id[14..15], "4");
    assert!(r.id.chars().enumerate().all(|(i, c)| if [8, 13, 18, 23].contains(&i) { c == '-' } else { c.is_ascii_hexdigit() && !c.is_ascii_uppercase() }));
    assert!(chrono::DateTime::parse_from_rfc3339(&r.added_at).is_ok());
    assert!(r.active);
    let other = postlane::repos::new_discovered_repo("app".to_string(), "/code/app".to_string());
    assert_ne!(r.id, other.id);
}
