use postlane::credentials::{
    account_sync_plan, checked_username, AccountSyncPlan, CredentialSaveResult, account_sync_warning, merge_account_names, platform_sync_warning, store_credential, sync_warning,
    username_rejected,
};
use postlane::discovery::{discover_repos_pass, folder_name, locate_clone, DiscoveryState, ProjectDiscoveryResult};
use postlane::connection::GitHubAppRepo;
use postlane::json::JsonValue;
use postlane::repo_init::{build_initial_config_json, build_initial_config_local_json, BASE_URL};
use postlane::repos::Repo;

fn repo(id: &str, path: &str) -> Repo {
    Repo {
        id: id.to_string(),
        name: "n".to_string(),
        path: path.to_string(),
        active: true,
        added_at: "2026-01-01T00:00:00Z".to_string(),
    }
}

fn pairs(v: &[(&str, &str)]) -> Vec<(String, String)> {
    v.iter().map(|(a, b)| (a.to_string(), b.to_string())).collect()
}

#[test]
fn discovery_pass_never_registers_a_path_twice() {
    let existing = vec![repo("r1", "/Home/Code/App")];
    let mut state = DiscoveryState::new(&existing);
    // Compared lower-cased: the registered path matches.
    assert!(!state.should_register("acme/app", "/home/code/app"));
    assert_eq!(state.result.already_registered, vec!["acme/app".to_string()]);
    assert!(state.should_register("acme/lib", "/home/code/lib"));
    state.note_registration("/home/code/lib", Ok("lib".to_string()));
    assert_eq!(state.result.added, vec!["lib".to_string()]);
    // A second GitHub repo resolving to the same clone is not registered again.
    assert!(!state.should_register("acme/lib-mirror", "/home/code/lib"));
}

#[test]
fn discovery_records_failures_and_missing_clones() {
    let mut state = DiscoveryState::new(&[]);
    state.note_not_found("acme/ghost");
    state.note_failure("/tmp/x", "permission denied");
    assert!(state.should_register("acme/y", "/tmp/y"));
    state.note_registration("/tmp/y", Err("write repos.json: full".to_string()));
    assert_eq!(state.result.not_found_on_disk, vec!["acme/ghost".to_string()]);
    assert_eq!(
        state.result.failed_to_register,
        vec![
            ("/tmp/x".to_string(), "permission denied".to_string()),
            ("/tmp/y".to_string(), "write repos.json: full".to_string()),
        ]
    );
    // A failed registration does not count as registered.
    assert!(state.should_register("acme/y", "/tmp/y"));
}

#[test]
fn locate_clone_matches_slug_case_insensitively_last_wins() {
    let entries = pairs(&[("acme/app", "/a"), ("acme/lib", "/b"), ("acme/app", "/c")]);
    assert_eq!(locate_clone(&entries, "Acme/App"), Some("/c".to_string()));
    assert_eq!(locate_clone(&entries, "acme/none"), None);
}

#[test]
fn folder_name_is_last_component() {
    assert_eq!(folder_name("/home/u/app"), Some("app".to_string()));
    assert_eq!(folder_name("/"), None);
}

#[test]
fn merged_account_names_later_wins() {
    let mut names = pairs(&[("acc-1", "Alice"), ("acc-2", "Bob")]);
    merge_account_names(&mut names, &pairs(&[("acc-2", "Robert"), ("acc-3", "Carol")]));
    names.sort();
    assert_eq!(names, pairs(&[("acc-1", "Alice"), ("acc-2", "Robert"), ("acc-3", "Carol")]));
    // Merging the same names again changes nothing.
    let before = names.clone();
    merge_account_names(&mut names, &pairs(&[("acc-2", "Robert"), ("acc-3", "Carol")]));
    names.sort();
    assert_eq!(names, before);
}

#[test]
fn store_credential_uses_scoped_key_and_reports_failure() {
    let seen = std::cell::RefCell::new(Vec::new());
    let ok = |k: &str, v: &str| -> Result<(), String> {
        seen.borrow_mut().push((k.to_string(), v.to_string()));
        Ok(())
    };
    assert!(store_credential("zernio", "sk-1", "proj-9", &ok).is_ok());
    assert_eq!(seen.borrow().as_slice(), &[("zernio/proj-9".to_string(), "sk-1".to_string())]);
    let failing = |_k: &str, _v: &str| -> Result<(), String> { Err("locked".to_string()) };
    assert_eq!(store_credential("zernio", "sk-1", "proj-9", &failing).unwrap_err(), "Failed to store credential: locked");
}

#[test]
fn credential_warnings_text() {
    assert_eq!(
        account_sync_warning("zernio", "timeout"),
        "account sync for 'zernio' failed — scheduler may use stale account IDs: timeout"
    );
    assert_eq!(
        platform_sync_warning("/r", "is a directory"),
        "platform sync for '/r' failed — queue badges may be stale: is a directory"
    );
    assert_eq!(username_rejected("bob", "404"), "Username 'bob' not recognised by Upload Post: 404");
    assert_eq!(sync_warning(&[]), None);
    assert_eq!(
        sync_warning(&["x".to_string()]),
        Some("Credential saved, but some repos could not be synced. Check logs.".to_string())
    );
}

#[test]
fn initial_config_json_ties_repo_to_project() {
    let config = build_initial_config_json("proj-abc", "sonnet-4-6");
    assert_eq!(config.get("version").and_then(|v| v.as_u64()), Some(1));
    assert_eq!(config.get("project_id").and_then(|v| v.as_str()), Some("proj-abc"));
    assert_eq!(config.get("base_url").and_then(|v| v.as_str()), Some(BASE_URL));
    let llm = config.get("llm").expect("llm");
    assert_eq!(llm.get("provider").and_then(|v| v.as_str()), Some("anthropic"));
    assert_eq!(llm.get("model").and_then(|v| v.as_str()), Some("sonnet-4-6"));
    assert_eq!(BASE_URL, "https://postlane.dev");
}

#[test]
fn initial_local_config_has_no_scheduler() {
    let config = build_initial_config_local_json();
    let scheduler = config.get("scheduler").expect("scheduler");
    assert_eq!(scheduler.get("provider").and_then(|v| v.as_str()), Some(""));
    match &config {
        JsonValue::Object(entries) => assert_eq!(entries.len(), 1),
        other => panic!("expected an object, got {:?}", other),
    }
}

#[test]
fn credential_save_steps_collect_warnings_and_names() {
    assert_eq!(account_sync_plan("upload_post", Some("bob")), AccountSyncPlan::CheckUsername("bob".to_string()));
    assert_eq!(account_sync_plan("upload_post", None), AccountSyncPlan::Skip);
    assert_eq!(account_sync_plan("zernio", Some("bob")), AccountSyncPlan::SyncAccounts);
    assert_eq!(
        checked_username("bob", Err("404".to_string())).unwrap_err(),
        "Username 'bob' not recognised by Upload Post: 404"
    );
    assert_eq!(checked_username("bob", Ok(vec!["x".to_string()])).unwrap(), vec!["x".to_string()]);

    let mut save = CredentialSaveResult::new();
    save.note_account_sync("zernio", Ok(()));
    assert!(save.warnings.is_empty());
    save.note_account_sync("zernio", Err("timeout".to_string()));
    save.note_platform_sync("/r1", Ok(()));
    save.note_platform_sync("/r2", Err("denied".to_string()));
    save.note_path_warnings(vec!["w".to_string()]);
    save.note_account_names(Ok(pairs(&[("a1", "Alice")])));
    save.note_account_names(Err("unreadable".to_string()));
    save.note_account_names(Ok(pairs(&[("a1", "Alicia"), ("a2", "Bob")])));
    assert_eq!(
        save.warnings,
        vec![
            "account sync for 'zernio' failed — scheduler may use stale account IDs: timeout".to_string(),
            "platform sync for '/r2' failed — queue badges may be stale: denied".to_string(),
            "w".to_string(),
        ]
    );
    let mut names = save.account_names.clone();
    names.sort();
    assert_eq!(names, pairs(&[("a1", "Alicia"), ("a2", "Bob")]));
    let response = save.into_response();
    assert_eq!(
        response.sync_warning.as_deref(),
        Some("Credential saved, but some repos could not be synced. Check logs.")
    );
    assert!(CredentialSaveResult::new().into_response().sync_warning.is_none());
}

#[test]
fn project_discovery_result_is_empty_when_the_app_call_failed() {
    let failed = ProjectDiscoveryResult::for_project("p1", "Project One", None);
    assert_eq!(failed.project_id, "p1");
    assert_eq!(failed.project_name, "Project One");
    assert!(failed.discovery.added.is_empty() && failed.discovery.failed_to_register.is_empty());
    let mut state = DiscoveryState::new(&[]);
    state.note_not_found("acme/x");
    let found = ProjectDiscoveryResult::for_project("p1", "Project One", Some(state.result));
    assert_eq!(found.discovery.not_found_on_disk, vec!["acme/x".to_string()]);
}

fn app_repo(name: &str, full_name: &str) -> GitHubAppRepo {
    GitHubAppRepo {
        id: 1,
        name: name.to_string(),
        full_name: full_name.to_string(),
        private: false,
        html_url: format!("https://github.com/{}", full_name),
    }
}

#[test]
fn discovery_pass_puts_each_repo_in_one_list() {
    let apps = vec![
        app_repo("app", "Acme/App"),
        app_repo("lib", "acme/lib"),
        app_repo("lib-mirror", "acme/lib-mirror"),
        app_repo("ghost", "acme/ghost"),
        app_repo("broken", "acme/broken"),
    ];
    let scanned = pairs(&[
        ("acme/app", "/code/app"),
        ("acme/lib", "/code/lib"),
        ("acme/lib-mirror", "/code/LIB"),
        ("acme/broken", "/code/broken"),
    ]);
    let existing = vec![repo("r1", "/Code/App")];
    let canonicalize = |dir: &str| -> Result<String, String> {
        if dir == "/code/broken" { Err("no such file".to_string()) } else { Ok(dir.to_string()) }
    };
    let register = |path: &str| -> Result<String, String> { Ok(path.rsplit('/').next().unwrap().to_string()) };
    let r = discover_repos_pass(&apps, &scanned, &existing, canonicalize, register);
    assert_eq!(r.added, vec!["lib".to_string()]);
    assert_eq!(r.already_registered, vec!["app".to_string(), "lib-mirror".to_string()]);
    assert_eq!(r.not_found_on_disk, vec!["acme/ghost".to_string()]);
    assert_eq!(r.failed_to_register, vec![("/code/broken".to_string(), "no such file".to_string())]);
}
