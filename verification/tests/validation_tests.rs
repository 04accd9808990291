use postlane::registry::{require_license_token, BillingGate, CreateProjectError, SESSION_EXPIRED_ERROR};
use postlane::validation::{format_api_error, validate_instance_hostname, validate_project_id, MAX_PROJECT_ID_LEN};

#[test]
fn test_require_license_token_returns_err_for_none() {
    let result = require_license_token(None);
    assert!(result.is_err());
    assert!(result.unwrap_err().contains("sign in"), "error should mention sign-in");
}

#[test]
fn test_require_license_token_returns_token_for_some() {
    let result = require_license_token(Some("tok-123".to_string()));
    assert_eq!(result.expect("require_license_token should return Ok for Some"), "tok-123");
}

#[test]
fn require_license_token_error_text_is_exact() {
    assert_eq!(
        require_license_token(None).unwrap_err(),
        "No license token — sign in at postlane.dev/login"
    );
}

#[test]
fn test_validate_project_id_accepts_alphanumeric_and_hyphens() {
    assert!(validate_project_id("proj-abc-123").is_ok());
    assert!(validate_project_id("abc").is_ok());
    assert!(validate_project_id("proj_123-ABC").is_ok());
}

#[test]
fn test_validate_project_id_rejects_empty() {
    let result = validate_project_id("");
    assert!(result.is_err());
    assert!(result.unwrap_err().contains("empty"));
}

#[test]
fn test_validate_project_id_rejects_slash() {
    let result = validate_project_id("proj/../../etc/passwd");
    assert!(result.is_err());
    assert!(result.unwrap_err().contains("invalid"));
}

#[test]
fn test_validate_project_id_rejects_spaces() {
    assert!(validate_project_id("proj name").is_err());
}

#[test]
fn test_validate_project_id_rejects_dot_sequences() {
    assert!(validate_project_id("..").is_err());
    assert!(validate_project_id("../other").is_err());
}

#[test]
fn test_validate_project_id_rejects_overlong() {
    let long_id = "a".repeat(MAX_PROJECT_ID_LEN + 1);
    let result = validate_project_id(&long_id);
    assert!(result.is_err());
    assert!(result.unwrap_err().contains("too long"), "error must mention too long");
}

#[test]
fn test_validate_project_id_accepts_max_length() {
    let max_id = "a".repeat(MAX_PROJECT_ID_LEN);
    assert!(validate_project_id(&max_id).is_ok());
}

#[test]
fn validate_project_id_refuses_non_ascii_letters() {
    let result = validate_project_id("projé");
    assert!(result.unwrap_err().contains("invalid characters"));
}

#[test]
fn test_format_api_error_excludes_raw_body() {
    let err = format_api_error("App registration failed", 422, "secret_internal_config:abc123");
    assert!(!err.contains("secret_internal_config"), "must not expose raw body: {}", err);
    assert!(err.contains("422"), "must include HTTP status: {}", err);
}

#[test]
fn test_format_api_error_includes_operation_context() {
    let err = format_api_error("Token exchange failed", 400, "any body");
    assert!(err.starts_with("Token exchange failed"), "must include operation: {}", err);
}

#[test]
fn test_format_api_error_empty_body_is_accepted() {
    let err = format_api_error("some operation", 503, "");
    assert!(err.contains("503"), "must include status with empty body: {}", err);
}

#[test]
fn test_format_api_error_format_is_operation_then_http_status_in_parens() {
    let err = format_api_error("fetch_projects", 429, "rate limited");
    assert_eq!(err, "fetch_projects (HTTP 429)");
}

#[test]
fn format_api_error_renders_status_zero() {
    assert_eq!(format_api_error("op", 0, "x"), "op (HTTP 0)");
}

#[test]
fn test_rejects_url_with_scheme() {
    assert!(validate_instance_hostname("https://mastodon.social").is_err());
    assert!(validate_instance_hostname("http://mastodon.social").is_err());
    assert!(validate_instance_hostname("ftp://example.com").is_err());
}

#[test]
fn test_accepts_bare_hostname() {
    assert!(validate_instance_hostname("mastodon.social").is_ok());
    assert!(validate_instance_hostname("fosstodon.org").is_ok());
}

#[test]
fn test_accepts_hostname_with_port() {
    assert!(validate_instance_hostname("mastodon.social:8080").is_ok());
}

#[test]
fn test_rejects_empty() {
    assert!(validate_instance_hostname("").is_err());
}

#[test]
fn test_rejects_path_component() {
    assert!(validate_instance_hostname("mastodon.social/evil").is_err());
    assert!(validate_instance_hostname("mastodon.social/../../etc/passwd").is_err());
}

#[test]
fn test_rejects_at_sign() {
    assert!(validate_instance_hostname("user@mastodon.social").is_err());
}

#[test]
fn test_rejects_query_and_fragment() {
    assert!(validate_instance_hostname("mastodon.social?evil=1").is_err());
    assert!(validate_instance_hostname("mastodon.social#evil").is_err());
}

#[test]
fn test_rejects_newline_injection() {
    assert!(validate_instance_hostname("mastodon.social\nevil: injected").is_err());
}

#[test]
fn test_error_message_is_actionable() {
    let err = validate_instance_hostname("https://mastodon.social").unwrap_err();
    assert!(err.contains("hostname"), "error must tell user what to provide: {}", err);
}

#[test]
fn instance_hostname_error_texts_are_exact() {
    assert_eq!(validate_instance_hostname("").unwrap_err(), "Instance hostname cannot be empty");
    assert_eq!(
        validate_instance_hostname("https://a").unwrap_err(),
        "Instance must be a hostname only (e.g. mastodon.social), not a URL. Got: https://a"
    );
    assert_eq!(
        validate_instance_hostname("a/b").unwrap_err(),
        "Instance hostname contains invalid character '/'. Use a plain hostname like mastodon.social"
    );
    assert_eq!(
        validate_instance_hostname("a\nb").unwrap_err(),
        "Instance hostname contains invalid character '\\n'. Use a plain hostname like mastodon.social"
    );
}

#[test]
fn instance_hostname_reports_first_character_in_check_order() {
    // '/' is checked before '@', whatever their positions.
    let err = validate_instance_hostname("u@host/x").unwrap_err();
    assert!(err.contains("'/'"), "got: {}", err);
}

#[test]
fn create_project_error_messages() {
    assert_eq!(
        CreateProjectError::InvalidName("too short".to_string()).to_message(),
        "Invalid project name: too short"
    );
    assert_eq!(
        CreateProjectError::InvalidWorkspaceType("team".to_string()).to_message(),
        "Invalid workspace type: 'team'. Must be personal, organization, or client"
    );
    assert_eq!(
        CreateProjectError::NoFreeSlot.to_message(),
        "No free project slot. Subscribe at postlane.dev/billing"
    );
    assert_eq!(
        CreateProjectError::OrgAlreadyRegistered.to_message(),
        "This GitHub/GitLab organisation is already linked to a Postlane project"
    );
    assert_eq!(
        CreateProjectError::NoLicenseToken.to_message(),
        "No license token — sign in at postlane.dev/login"
    );
    assert_eq!(CreateProjectError::Backend("503".to_string()).to_message(), "Backend error: 503");
}

#[test]
fn session_expired_constant_and_billing_gate() {
    assert_eq!(SESSION_EXPIRED_ERROR, "session_expired");
    assert!(matches!(BillingGate::NoPlan, BillingGate::NoPlan));
}
