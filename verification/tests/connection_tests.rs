use postlane::connection::{check_cli_state, merge_into_rows, CliConfig, GitHubAppRepo, LocalRepoFacts};
use postlane::repos::Repo;

fn make_app_repo(name: &str, full_name: &str) -> GitHubAppRepo {
    GitHubAppRepo {
        id: 1,
        name: name.to_string(),
        full_name: full_name.to_string(),
        private: false,
        html_url: format!("https://github.com/{}", full_name),
    }
}

fn make_repo(path: &str, name: &str) -> Repo {
    Repo {
        id: format!("id-{}", name),
        name: name.to_string(),
        path: path.to_string(),
        active: true,
        added_at: "2026-01-01T00:00:00Z".to_string(),
    }
}

fn facts(path_exists: bool, config: CliConfig, slug: Option<&str>) -> LocalRepoFacts {
    LocalRepoFacts { path_exists, config, github_slug: slug.map(|s| s.to_string()) }
}

fn cfg(pid: &str) -> CliConfig {
    CliConfig::Parsed(Some(pid.to_string()))
}

#[test]
fn test_check_cli_not_initialized() {
    let (init, mismatch) = check_cli_state(&CliConfig::Absent, "proj-1");
    assert!(!init, "cli_initialized must be false when config.json is absent");
    assert!(!mismatch, "project_id_mismatch must be false when config.json is absent");
}

#[test]
fn test_check_cli_initialized_matching_project() {
    let (init, mismatch) = check_cli_state(&cfg("proj-1"), "proj-1");
    assert!(init, "cli_initialized must be true when config.json exists");
    assert!(!mismatch, "project_id_mismatch must be false when project_id matches");
}

#[test]
fn test_check_cli_initialized_mismatched_project() {
    let (init, mismatch) = check_cli_state(&cfg("other-proj"), "proj-1");
    assert!(init, "cli_initialized must be true when config.json exists");
    assert!(mismatch, "project_id_mismatch must be true when project_id differs");
}

#[test]
fn test_check_cli_malformed_config_treated_as_initialized() {
    let (init, mismatch) = check_cli_state(&CliConfig::Unreadable, "proj-1");
    assert!(init);
    assert!(!mismatch);
}

#[test]
fn check_cli_empty_or_missing_project_id_is_no_mismatch() {
    assert_eq!(check_cli_state(&cfg(""), "proj-1"), (true, false));
    assert_eq!(check_cli_state(&CliConfig::Parsed(None), "proj-1"), (true, false));
}

#[test]
fn test_github_app_only_repo() {
    let app_repos = vec![make_app_repo("my-repo", "org/my-repo")];
    let rows = merge_into_rows(&app_repos, &[], &[], "proj-1");
    assert_eq!(rows.len(), 1);
    assert_eq!(rows[0].github_full_name.as_deref(), Some("org/my-repo"));
    assert_eq!(rows[0].display_name, "my-repo");
    assert!(rows[0].github_app_connected);
    assert!(!rows[0].folder_registered);
    assert!(!rows[0].cli_initialized);
    assert!(rows[0].local_path.is_none());
}

#[test]
fn test_registered_only_repo() {
    let repo = make_repo("/home/u/my-repo", "my-repo");
    let rows = merge_into_rows(&[], &[repo], &[facts(true, CliConfig::Absent, Some("org/my-repo"))], "proj-1");
    assert_eq!(rows.len(), 1);
    assert!(!rows[0].github_app_connected);
    assert!(rows[0].folder_registered);
    assert_eq!(rows[0].local_path.as_deref(), Some("/home/u/my-repo"));
    assert_eq!(rows[0].github_full_name.as_deref(), Some("org/my-repo"));
}

#[test]
fn test_repo_in_both_sources_produces_single_row() {
    let repo = make_repo("/home/u/my-repo", "my-repo");
    let app_repos = vec![make_app_repo("my-repo", "org/my-repo")];
    let rows = merge_into_rows(&app_repos, &[repo], &[facts(true, CliConfig::Absent, Some("org/my-repo"))], "proj-1");
    assert_eq!(rows.len(), 1, "same repo in both sources must not produce a duplicate row");
    assert!(rows[0].github_app_connected);
    assert!(rows[0].folder_registered);
    assert_eq!(rows[0].repo_id.as_deref(), Some("id-my-repo"));
}

#[test]
fn app_full_name_is_matched_case_insensitively() {
    let repo = make_repo("/home/u/my-repo", "my-repo");
    let app_repos = vec![make_app_repo("My-Repo", "Org/My-Repo")];
    let rows = merge_into_rows(&app_repos, &[repo], &[facts(true, CliConfig::Absent, Some("org/my-repo"))], "proj-1");
    assert_eq!(rows.len(), 1);
    assert!(rows[0].folder_registered);
}

#[test]
fn test_cli_initialized_when_config_exists_and_matches() {
    let repo = make_repo("/home/u/my-repo", "my-repo");
    let app_repos = vec![make_app_repo("my-repo", "org/my-repo")];
    let rows = merge_into_rows(&app_repos, &[repo], &[facts(true, cfg("proj-1"), Some("org/my-repo"))], "proj-1");
    assert_eq!(rows.len(), 1);
    assert!(rows[0].cli_initialized);
    assert!(!rows[0].project_id_mismatch);
}

#[test]
fn test_project_id_mismatch_when_config_has_different_id() {
    let repo = make_repo("/home/u/my-repo", "my-repo");
    let app_repos = vec![make_app_repo("my-repo", "org/my-repo")];
    let rows = merge_into_rows(&app_repos, &[repo], &[facts(true, cfg("other-proj"), Some("org/my-repo"))], "proj-1");
    assert_eq!(rows.len(), 1, "GitHub App row must still appear");
    assert!(rows[0].github_app_connected, "github_app_connected must be true");
    assert!(!rows[0].folder_registered, "folder must not show as registered for this project");
    assert!(!rows[0].cli_initialized, "cli must not show as initialized for this project");
}

#[test]
fn test_sort_order_github_app_first_then_alphabetical() {
    let local_repo = make_repo("/home/u/zzz-local", "zzz-local");
    let app_repos = vec![make_app_repo("bbb-remote", "org/bbb-remote"), make_app_repo("aaa-remote", "org/aaa-remote")];
    let rows = merge_into_rows(&app_repos, &[local_repo], &[facts(true, CliConfig::Absent, Some("org/zzz-local"))], "proj-1");
    assert_eq!(rows.len(), 3);
    assert_eq!(rows[0].display_name, "aaa-remote", "GitHub App rows must be sorted alphabetically first");
    assert_eq!(rows[1].display_name, "bbb-remote");
    assert_eq!(rows[2].display_name, "zzz-local", "local-only rows must follow GitHub App rows");
}

#[test]
fn test_inactive_repo_excluded_from_results() {
    let mut repo = make_repo("/home/u/my-repo", "my-repo");
    repo.active = false;
    let rows = merge_into_rows(&[], &[repo], &[facts(true, CliConfig::Absent, Some("org/my-repo"))], "proj-1");
    assert!(rows.is_empty(), "inactive repos must not appear in the table");
}

#[test]
fn test_local_repos_appear_when_github_app_returns_empty() {
    let repo = make_repo("/home/u/my-repo", "my-repo");
    let rows = merge_into_rows(&[], &[repo], &[facts(true, CliConfig::Absent, Some("org/my-repo"))], "proj-1");
    assert_eq!(rows.len(), 1);
    assert!(!rows[0].github_app_connected);
    assert!(rows[0].folder_registered);
}

#[test]
fn test_local_only_repo_with_wrong_project_excluded() {
    let repo = make_repo("/home/u/my-repo", "my-repo");
    let rows = merge_into_rows(&[], &[repo], &[facts(true, cfg("other-proj"), Some("org/my-repo"))], "proj-1");
    assert!(rows.is_empty(), "local-only repo with wrong project_id must not appear in this org's table");
}

#[test]
fn test_stale_registration_with_missing_path_excluded() {
    let repo = Repo {
        id: "stale-id".to_string(),
        name: "gone-repo".to_string(),
        path: "/nonexistent/path/gone-repo".to_string(),
        active: true,
        added_at: "2026-01-01T00:00:00Z".to_string(),
    };
    let rows = merge_into_rows(&[], &[repo], &[facts(false, CliConfig::Absent, None)], "proj-1");
    assert!(rows.is_empty(), "stale registration with missing path must be silently dropped");
}

#[test]
fn test_github_app_repo_with_mismatched_local_shows_as_not_folder_registered() {
    let repo = make_repo("/home/u/my-repo", "my-repo");
    let app_repos = vec![make_app_repo("my-repo", "org/my-repo")];
    let rows = merge_into_rows(&app_repos, &[repo], &[facts(true, cfg("other-proj"), Some("org/my-repo"))], "proj-1");
    assert_eq!(rows.len(), 1, "GitHub App row must still appear");
    assert!(rows[0].github_app_connected, "github_app_connected must be true");
    assert!(!rows[0].folder_registered, "folder must not appear registered for this project");
}

#[test]
fn test_non_github_remote_has_no_full_name() {
    let repo = make_repo("/home/u/my-repo", "my-repo");
    let rows = merge_into_rows(&[], &[repo], &[facts(true, CliConfig::Absent, None)], "proj-1");
    assert_eq!(rows.len(), 1);
    assert!(rows[0].github_full_name.is_none(), "non-GitHub remote must not produce a github_full_name");
    assert!(rows[0].folder_registered);
}

#[test]
fn test_multiple_repos_all_present() {
    let repo_a = make_repo("/home/u/repo-a", "repo-a");
    let repo_b = make_repo("/home/u/repo-b", "repo-b");
    let app_repos = vec![make_app_repo("repo-a", "org/repo-a"), make_app_repo("repo-b", "org/repo-b")];
    let f = [facts(true, CliConfig::Absent, Some("org/repo-a")), facts(true, CliConfig::Absent, Some("org/repo-b"))];
    let rows = merge_into_rows(&app_repos, &[repo_a, repo_b], &f, "proj-1");
    assert_eq!(rows.len(), 2);
    assert!(rows.iter().all(|r| r.github_app_connected && r.folder_registered));
}

#[test]
fn later_registration_wins_the_slug() {
    let first = Repo { id: "a".into(), name: "x".into(), path: "/p1".into(), active: true, added_at: String::new() };
    let second = Repo { id: "b".into(), name: "x".into(), path: "/p2".into(), active: true, added_at: String::new() };
    let f = [facts(true, CliConfig::Absent, Some("org/x")), facts(true, CliConfig::Absent, Some("org/x"))];
    let rows = merge_into_rows(&[make_app_repo("x", "org/x")], &[first, second], &f, "proj-1");
    // The app row takes /p2; /p1 is not on an app row and gets its own row.
    assert_eq!(rows.len(), 2);
    assert_eq!(rows[0].local_path.as_deref(), Some("/p2"));
    assert!(!rows[1].github_app_connected);
    assert_eq!(rows[1].local_path.as_deref(), Some("/p1"));
}
