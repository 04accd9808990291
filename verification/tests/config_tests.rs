use chrono::TimeZone;
use postlane::accounts::{
    linked_providers_status, network_error, parse_error, provider_account_url, provider_accounts_status,
    provider_orgs_status, provider_orgs_url, remove_account_status, status_text, OrgSummary,
    ProviderAccountSummary,
};
use postlane::discovery::{candidate_dirs, discovered_repo_plan, newly_added_repos};
use postlane::json::{JsonNumber, JsonValue};
use postlane::providers::common::{UtcTime, CHRONO_MAX_SECS, CHRONO_MIN_SECS};
use postlane::registry::{registration_status, repo_registration_request};
use postlane::repos::{add_repo_impl, check_new_repo_dir, update_repo_path_impl, Repo, ReposConfig};
use postlane::routing::{credential_for_settings_at, get_scheduler_credential_with_fallback, scheduler_settings};
use postlane::schedule_time::{compute_schedule_utc, schedule_today, DefaultPostTime};
use postlane::scheduler_config::{check_fallback_order, scheduler_config_target, with_fallback_order};
use postlane::usage::{get_usage, is_at_limit, is_near_limit, record_post, UsageStore};

fn jv(v: &serde_json::Value) -> JsonValue {
    match v {
        serde_json::Value::Null => JsonValue::Null,
        serde_json::Value::Bool(b) => JsonValue::Bool(*b),
        serde_json::Value::Number(n) => match n.as_u64() {
            Some(u) => JsonValue::Number(JsonNumber::Unsigned(u)),
            None => JsonValue::Number(JsonNumber::Other(n.to_string())),
        },
        serde_json::Value::String(s) => JsonValue::Str(s.clone()),
        serde_json::Value::Array(items) => JsonValue::Array(items.iter().map(jv).collect()),
        serde_json::Value::Object(map) => {
            JsonValue::Object(map.iter().map(|(k, v)| (k.clone(), jv(v))).collect())
        }
    }
}

fn parse(text: &str) -> JsonValue {
    jv(&serde_json::from_str::<serde_json::Value>(text).expect("valid JSON"))
}

fn strings(v: &[&str]) -> Vec<String> {
    v.iter().map(|s| s.to_string()).collect()
}

fn repo(id: &str, path: &str) -> Repo {
    Repo {
        id: id.to_string(),
        name: "test".to_string(),
        path: path.to_string(),
        active: true,
        added_at: "2026-01-01T00:00:00Z".to_string(),
    }
}

fn registry(repos: Vec<Repo>) -> ReposConfig {
    ReposConfig { version: 1, workspaces: vec![], repos }
}

fn order_of(config: &JsonValue) -> Vec<String> {
    let scheduler = config.get("scheduler").expect("scheduler");
    let items = scheduler.get("fallback_order").and_then(|v| v.as_array()).expect("array");
    items.iter().filter_map(|v| v.as_str()).map(|s| s.to_string()).collect()
}

// ── schedule time ────────────────────────────────────────────────────────────

fn utc(y: i32, mo: u32, d: u32, h: u32, min: u32) -> UtcTime {
    let t = chrono::Utc.with_ymd_and_hms(y, mo, d, h, min, 0).unwrap();
    UtcTime { secs: t.timestamp(), nanos: 0 }
}

fn dpt() -> DefaultPostTime {
    DefaultPostTime { hour: 9, minute: 30, timezone: String::new() }
}

#[test]
fn test_schedule_utc_returns_today_when_time_not_yet_passed() {
    let result = compute_schedule_utc(&dpt(), "UTC", utc(2026, 5, 5, 8, 0)).unwrap();
    assert!(result.starts_with("2026-05-05T09:30:00"), "got: {}", result);
}

#[test]
fn test_schedule_utc_returns_tomorrow_when_time_has_passed() {
    let result = compute_schedule_utc(&dpt(), "UTC", utc(2026, 5, 5, 10, 0)).unwrap();
    assert!(result.starts_with("2026-05-06T09:30:00"), "got: {}", result);
}

#[test]
fn test_schedule_utc_europe_london_converts_correctly() {
    let result = compute_schedule_utc(&dpt(), "Europe/London", utc(2026, 5, 5, 8, 0)).unwrap();
    assert!(result.starts_with("2026-05-05T08:30:00"), "got: {}", result);
}

#[test]
fn test_schedule_utc_europe_london_tomorrow_when_passed() {
    let result = compute_schedule_utc(&dpt(), "Europe/London", utc(2026, 5, 5, 10, 0)).unwrap();
    assert!(result.starts_with("2026-05-06T08:30:00"), "got: {}", result);
}

#[test]
fn test_schedule_utc_empty_timezone_defaults_to_utc() {
    let result = compute_schedule_utc(&dpt(), "", utc(2026, 5, 5, 8, 0)).unwrap();
    assert!(result.starts_with("2026-05-05T09:30:00"), "got: {}", result);
}

#[test]
fn test_schedule_utc_invalid_timezone_returns_error() {
    let result = compute_schedule_utc(&dpt(), "Not/A/Timezone", utc(2026, 5, 5, 8, 0));
    assert!(result.is_err());
    assert!(result.unwrap_err().contains("Unknown timezone"));
}

#[test]
fn schedule_utc_exact_text_and_boundary() {
    assert_eq!(compute_schedule_utc(&dpt(), "UTC", utc(2026, 5, 5, 8, 0)).unwrap(), "2026-05-05T09:30:00+00:00");
    // At exactly the posting time, today's slot has passed.
    assert_eq!(compute_schedule_utc(&dpt(), "UTC", utc(2026, 5, 5, 9, 30)).unwrap(), "2026-05-06T09:30:00+00:00");
    assert_eq!(
        compute_schedule_utc(&dpt(), "Nowhere/City", utc(2026, 5, 5, 8, 0)).unwrap_err(),
        "Unknown timezone: 'Nowhere/City'"
    );
}

#[test]
fn schedule_utc_skipped_local_time_is_an_error() {
    // 01:30 does not exist in London on the day clocks go forward.
    let early = DefaultPostTime { hour: 1, minute: 30, timezone: String::new() };
    let err = compute_schedule_utc(&early, "Europe/London", utc(2026, 3, 29, 0, 0)).unwrap_err();
    assert_eq!(err, "Ambiguous or invalid local time on 2026-03-29");
}

#[test]
fn schedule_today_compares_with_now() {
    let now = UtcTime { secs: 100, nanos: 5 };
    assert!(schedule_today(101, &now));
    assert!(!schedule_today(100, &now));
    assert!(!schedule_today(99, &now));
}

// ── scheduler configuration ──────────────────────────────────────────────────

fn write_order(config: &str, order: &[&str]) -> JsonValue {
    with_fallback_order(parse(config), &strings(order))
}

#[test]
fn test_update_scheduler_config_writes_single_provider() {
    let repos = vec![repo("r99", "/repos/one")];
    let path = scheduler_config_target("r99", &strings(&["zernio"]), &repos).expect("ok");
    assert_eq!(path, "/repos/one/.postlane/config.json");
    let config = write_order(r#"{"scheduler":{"provider":"old"}}"#, &["zernio"]);
    let scheduler = config.get("scheduler").unwrap();
    assert_eq!(scheduler.get("provider").unwrap().as_str().unwrap(), "zernio");
    assert_eq!(order_of(&config), vec!["zernio"]);
}

#[test]
fn test_update_scheduler_config_writes_full_fallback_order() {
    let repos = vec![repo("r99", "/repos/one")];
    let order_in = ["zernio", "publer", "outstand"];
    assert!(scheduler_config_target("r99", &strings(&order_in), &repos).is_ok());
    let config = write_order(r#"{"scheduler":{"provider":"old"}}"#, &order_in);
    assert_eq!(config.get("scheduler").unwrap().get("provider").unwrap().as_str().unwrap(), "zernio");
    assert_eq!(order_of(&config), vec!["zernio", "publer", "outstand"]);
}

#[test]
fn test_update_scheduler_config_rejects_empty_list() {
    let result = scheduler_config_target("r99", &[], &[]);
    assert!(result.is_err());
    assert_eq!(result.unwrap_err(), "fallback_order must contain at least one provider");
}

#[test]
fn test_update_scheduler_config_rejects_unknown_provider() {
    let repos = vec![repo("r99", "/repos/one")];
    let result = scheduler_config_target("r99", &strings(&["unknown_xyz"]), &repos);
    assert!(result.is_err(), "unknown provider must be rejected");
    let err = result.unwrap_err();
    assert!(err.contains("unknown_xyz"), "error must identify the bad provider, got: {}", err);
}

#[test]
fn test_update_scheduler_config_rejects_provider_in_mixed_list() {
    let repos = vec![repo("r99", "/repos/one")];
    let result = scheduler_config_target("r99", &strings(&["zernio", "bad_provider"]), &repos);
    assert!(result.is_err(), "list with unknown provider must be rejected");
    assert_eq!(result.unwrap_err(), "Unknown provider in fallback_order: 'bad_provider'");
}

#[test]
fn test_update_scheduler_config_errors_on_missing_repo() {
    let result = scheduler_config_target("nonexistent", &strings(&["zernio"]), &[]);
    assert!(result.is_err());
    assert_eq!(result.unwrap_err(), "Repo nonexistent not found");
}

#[test]
fn check_fallback_order_reports_first_unknown() {
    assert!(check_fallback_order(&strings(&["zernio", "webhook"])).is_ok());
    assert_eq!(
        check_fallback_order(&strings(&["nope", "zernio", "worse"])).unwrap_err(),
        "Unknown provider in fallback_order: 'nope'"
    );
}

#[test]
fn with_fallback_order_keeps_other_members() {
    let config = write_order(r#"{"project_id":"p1","scheduler":{"provider":"old","timezone":"UTC"}}"#, &["publer"]);
    assert_eq!(config.get("project_id").unwrap().as_str(), Some("p1"));
    let scheduler = config.get("scheduler").unwrap();
    assert_eq!(scheduler.get("timezone").unwrap().as_str(), Some("UTC"));
    assert_eq!(scheduler.get("provider").unwrap().as_str(), Some("publer"));
}

#[test]
fn with_fallback_order_fills_a_null_config() {
    let config = with_fallback_order(JsonValue::Null, &strings(&["zernio", "buffer"]));
    assert_eq!(order_of(&config), vec!["zernio", "buffer"]);
}

#[test]
fn written_fallback_order_reads_back() {
    let config = write_order(r#"{"scheduler":{"provider":"old","fallback_order":["x"]}}"#, &["publer", "zernio"]);
    let settings = scheduler_settings(&config);
    let order = postlane::routing::read_fallback_order(&settings);
    assert_eq!(order, vec!["publer", "zernio"]);
}

#[test]
fn scheduler_settings_reads_json() {
    let settings = scheduler_settings(&parse(r#"{"scheduler":{"provider":"zernio","fallback_order":["a",1,""]}}"#));
    assert_eq!(settings.provider.as_deref(), Some("zernio"));
    assert_eq!(
        settings.fallback_order,
        Some(vec![Some("a".to_string()), None, Some(String::new())])
    );
    let none = scheduler_settings(&parse(r#"{"other":1}"#));
    assert!(none.provider.is_none() && none.fallback_order.is_none());
}

#[test]
fn credential_choice_needs_a_configured_scheduler() {
    let store = UsageStore::new();
    let empty = scheduler_settings(&parse("{}"));
    let err = credential_for_settings_at(&empty, &store, 5, 2026, |_p: &str| Some("k".to_string())).unwrap_err();
    assert_eq!(err, "No scheduler configured. Add one in Settings \u{2192} Scheduler.");
    let err = get_scheduler_credential_with_fallback(&empty, &store, |_p: &str| Some("k".to_string())).unwrap_err();
    assert_eq!(err, "No scheduler configured. Add one in Settings \u{2192} Scheduler.");
    let settings = scheduler_settings(&parse(r#"{"scheduler":{"provider":"publer"}}"#));
    let cred = credential_for_settings_at(&settings, &store, 5, 2026, |p: &str| Some(format!("key-{p}"))).unwrap();
    assert_eq!(cred.provider, "publer");
    assert_eq!(cred.api_key, "key-publer");
}

// ── usage by the clock ───────────────────────────────────────────────────────

#[test]
fn usage_recorded_this_month_is_counted() {
    let mut store = UsageStore::new();
    let (month, _year) = record_post("publer", &mut store);
    assert!((1..=12).contains(&month));
    let usage = get_usage("publer", &store);
    assert_eq!(usage.count, 1);
    assert_eq!(usage.provider, "publer");
    assert!(!is_near_limit("publer", &store));
    for _ in 0..7 {
        record_post("publer", &mut store);
    }
    assert!(is_near_limit("publer", &store));
    assert!(!is_at_limit("publer", &store));
    record_post("publer", &mut store);
    record_post("publer", &mut store);
    assert!(is_at_limit("publer", &store));
    assert!(!is_at_limit("zernio", &store));
}

// ── account web API ──────────────────────────────────────────────────────────

#[test]
fn status_text_matches_display() {
    assert_eq!(status_text(500), reqwest::StatusCode::INTERNAL_SERVER_ERROR.to_string());
    assert_eq!(status_text(418), "418 I'm a teapot");
    assert_eq!(status_text(599), "599 <unknown status code>");
}

#[test]
fn provider_orgs_statuses() {
    assert!(provider_orgs_status(200).is_ok());
    assert_eq!(provider_orgs_status(401).unwrap_err(), "session_expired");
    assert_eq!(provider_orgs_status(403).unwrap_err(), "scope_not_granted");
    assert_eq!(
        provider_orgs_status(500).unwrap_err(),
        "Unexpected status 500 Internal Server Error fetching provider orgs"
    );
}

#[test]
fn linked_and_account_statuses() {
    assert!(linked_providers_status(200).is_ok());
    assert_eq!(linked_providers_status(401).unwrap_err(), "session_expired");
    assert_eq!(linked_providers_status(404).unwrap_err(), "Unexpected status 404 Not Found fetching linked providers");
    assert!(provider_accounts_status(200).is_ok());
    assert_eq!(provider_accounts_status(401).unwrap_err(), "session_expired");
    assert_eq!(
        provider_accounts_status(502).unwrap_err(),
        "Unexpected status 502 Bad Gateway fetching provider accounts"
    );
}

#[test]
fn remove_account_statuses() {
    assert!(remove_account_status(200).is_ok());
    assert_eq!(remove_account_status(401).unwrap_err(), "session_expired");
    assert_eq!(remove_account_status(404).unwrap_err(), "account_not_found");
    assert_eq!(remove_account_status(409).unwrap_err(), "cannot_remove_primary");
    assert_eq!(
        remove_account_status(500).unwrap_err(),
        "Unexpected status 500 Internal Server Error removing provider account"
    );
}

#[test]
fn account_urls_and_errors() {
    assert_eq!(provider_orgs_url("https://api", "github"), "https://api/v1/provider/orgs?provider=github");
    assert_eq!(provider_account_url("https://api", "acc-1"), "https://api/v1/account/provider-accounts/acc-1");
    assert_eq!(network_error("fetching provider orgs", "timeout"), "Network error fetching provider orgs: timeout");
    assert_eq!(parse_error("provider orgs", "eof"), "Failed to parse provider orgs response: eof");
}

#[test]
fn account_summaries_hold_their_fields() {
    let org = OrgSummary {
        login: "acme".to_string(),
        display_name: "Acme".to_string(),
        avatar_url: String::new(),
        is_personal: false,
        has_project: true,
        project_id: Some("p1".to_string()),
    };
    assert_eq!(org.clone().project_id.as_deref(), Some("p1"));
    let acc = ProviderAccountSummary {
        id: "a1".to_string(),
        provider: "github".to_string(),
        provider_account_id: None,
        label: None,
        is_primary: true,
    };
    assert!(acc.clone().is_primary);
}

// ── registering a repo with a project ────────────────────────────────────────

#[test]
fn registration_request_for_registered_repo() {
    let repos = vec![repo("r1", "/work/app")];
    let (url, body) = repo_registration_request("proj-abc", "/work/app", "The desktop app", "https://api", &repos)
        .expect("ok");
    assert_eq!(url, "https://api/v1/projects/proj-abc/repos");
    assert_eq!(body.get("description").unwrap().as_str(), Some("The desktop app"));
    let hash = body.get("repo_path_hash").unwrap().as_str().unwrap().to_string();
    assert_eq!(hash, postlane::identifiers::sha256_hex("/work/app"));
    assert_ne!(hash, "/work/app");
}

#[test]
fn registration_request_rejects_unknown_path_and_bad_id() {
    let repos = vec![repo("r1", "/work/app")];
    assert_eq!(
        repo_registration_request("proj-abc", "/elsewhere", "d", "https://api", &repos).unwrap_err(),
        "Path '/elsewhere' is not in the registered repos list"
    );
    assert!(repo_registration_request("bad id!", "/work/app", "d", "https://api", &repos).is_err());
}

#[test]
fn registration_status_accepts_success_only() {
    assert!(registration_status(201).is_ok());
    assert_eq!(registration_status(403).unwrap_err(), "Backend returned 403 Forbidden");
}

// ── connecting and moving repos ──────────────────────────────────────────────

#[test]
fn test_add_repo_returns_err_when_no_git_dir() {
    let mut config = registry(vec![]);
    let result = add_repo_impl("/tmp/some-dir", false, false, "id-1".to_string(), "t".to_string(), &mut config);
    assert!(result.is_err(), "must err without .git dir");
    assert!(result.unwrap_err().contains("Not a git repository"));
    assert!(config.repos.is_empty());
}

#[test]
fn test_update_repo_path_returns_err_when_no_git_dir() {
    let mut config = registry(vec![]);
    let result = update_repo_path_impl("r1", "/tmp/some-dir", false, false, &mut config);
    assert!(result.is_err(), "must err without .git dir");
}

#[test]
fn add_repo_checks_config_then_registers() {
    let mut config = registry(vec![]);
    assert_eq!(
        check_new_repo_dir(true, false).unwrap_err(),
        "config.json not found. Run `postlane init` first."
    );
    let r = add_repo_impl("/home/u/code/app", true, true, "id-1".to_string(), "2026-01-01T00:00:00Z".to_string(), &mut config)
        .expect("ok");
    assert_eq!(r.name, "app");
    assert_eq!(r.path, "/home/u/code/app");
    assert!(r.active);
    assert_eq!(config.repos.len(), 1);
    assert_eq!(config.repos[0].id, "id-1");
}

#[test]
fn update_repo_path_moves_the_repo() {
    let mut config = registry(vec![repo("r1", "/old")]);
    assert_eq!(
        update_repo_path_impl("r1", "/new", true, false, &mut config).unwrap_err(),
        "config.json not found at new path"
    );
    assert_eq!(config.repos[0].path, "/old");
    update_repo_path_impl("r1", "/new", true, true, &mut config).expect("ok");
    assert_eq!(config.repos[0].path, "/new");
    assert_eq!(
        update_repo_path_impl("r9", "/new", true, true, &mut config).unwrap_err(),
        "Repo with id 'r9' not found"
    );
}

// ── discovery ────────────────────────────────────────────────────────────────

#[test]
fn test_candidate_dirs_includes_home_dir() {
    let dirs = candidate_dirs();
    if let Some(home) = dirs::home_dir() {
        let home = home.to_str().unwrap().to_string();
        assert!(dirs.contains(&home), "candidate_dirs must include the home directory; got: {:?}", dirs);
    } else {
        assert!(dirs.is_empty(), "candidate_dirs must return empty vec when home is unavailable");
    }
}

#[test]
fn test_candidate_dirs_includes_all_standard_subdirs() {
    let dirs = candidate_dirs();
    if let Some(home) = dirs::home_dir() {
        for sub in &["GitHub", "Projects", "Developer", "Code", "src", "workspace"] {
            let p = home.join(sub).to_str().unwrap().to_string();
            assert!(dirs.contains(&p), "candidate_dirs must include home/{sub}; got: {dirs:?}");
        }
    }
}

#[test]
fn test_candidate_dirs_count_when_home_exists() {
    let dirs = candidate_dirs();
    if dirs::home_dir().is_some() {
        assert_eq!(dirs.len(), 7, "expected home + 6 subdirs = 7 entries; got {}: {:?}", dirs.len(), dirs);
    }
}

#[test]
fn discovered_repo_plan_reports_presence() {
    let repos = vec![repo("r1", "/code/app")];
    assert_eq!(discovered_repo_plan(&repos, "/code/app").unwrap(), ("app".to_string(), true));
    assert_eq!(discovered_repo_plan(&repos, "/code/lib").unwrap(), ("lib".to_string(), false));
    assert_eq!(discovered_repo_plan(&repos, "/").unwrap_err(), "invalid folder name");
}

#[test]
fn newly_added_repos_are_those_with_unknown_ids() {
    let repos = vec![repo("a", "/a"), repo("b", "/b"), repo("c", "/c")];
    let fresh = newly_added_repos(&repos, &strings(&["b"]));
    let ids: Vec<&str> = fresh.iter().map(|r| r.id.as_str()).collect();
    assert_eq!(ids, vec!["a", "c"]);
}

#[test]
fn chrono_range_matches_stated_bounds() {
    assert!(chrono::DateTime::from_timestamp(CHRONO_MIN_SECS, 0).is_some());
    assert!(chrono::DateTime::from_timestamp(CHRONO_MIN_SECS - 1, 0).is_none());
    assert!(chrono::DateTime::from_timestamp(CHRONO_MAX_SECS, 0).is_some());
    assert!(chrono::DateTime::from_timestamp(CHRONO_MAX_SECS + 1, 0).is_none());
}

#[test]
fn schedule_at_the_edge_of_chrono_range_is_an_error_not_a_panic() {
    let late = UtcTime { secs: CHRONO_MAX_SECS, nanos: 0 };
    let result = compute_schedule_utc(&dpt(), "Asia/Tokyo", late);
    assert_eq!(result, Err("Schedule time out of range".to_string()));
    let early = UtcTime { secs: CHRONO_MIN_SECS, nanos: 0 };
    let result = compute_schedule_utc(&dpt(), "America/New_York", early);
    assert_eq!(result, Err("Schedule time out of range".to_string()));
}

#[test]
fn schedule_rolls_over_month_and_year_ends() {
    let leap = compute_schedule_utc(&dpt(), "UTC", utc(2028, 2, 28, 10, 0)).unwrap();
    assert_eq!(leap, "2028-02-29T09:30:00+00:00");
    let march = compute_schedule_utc(&dpt(), "UTC", utc(2027, 2, 28, 10, 0)).unwrap();
    assert_eq!(march, "2027-03-01T09:30:00+00:00");
    let new_year = compute_schedule_utc(&dpt(), "UTC", utc(2026, 12, 31, 10, 0)).unwrap();
    assert_eq!(new_year, "2027-01-01T09:30:00+00:00");
}
