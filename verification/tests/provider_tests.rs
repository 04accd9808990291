use postlane::json::{JsonNumber, JsonValue};
use postlane::provider_policy::post_url;
use postlane::providers::mastodon::{api_base, map_scheduled_status, parse_link_next};
use postlane::providers::publer;
use postlane::providers::substack::cookie_header;
use postlane::providers::zernio;
use postlane::scheduling::{build_provider, ProviderError, ProviderKind};

fn jv(v: &serde_json::Value) -> JsonValue {
    match v {
        serde_json::Value::Null => JsonValue::Null,
        serde_json::Value::Bool(b) => JsonValue::Bool(*b),
        serde_json::Value::Number(n) => {
            if let Some(u) = n.as_u64() {
                JsonValue::Number(JsonNumber::Unsigned(u))
            } else if let Some(i) = n.as_i64() {
                JsonValue::Number(JsonNumber::Negative(i))
            } else {
                JsonValue::Number(JsonNumber::Other(n.to_string()))
            }
        }
        serde_json::Value::String(s) => JsonValue::Str(s.clone()),
        serde_json::Value::Array(items) => JsonValue::Array(items.iter().map(jv).collect()),
        serde_json::Value::Object(map) => {
            JsonValue::Object(map.iter().map(|(k, v)| (k.clone(), jv(v))).collect())
        }
    }
}

fn parse(text: &str) -> JsonValue {
    jv(&serde_json::from_str::<serde_json::Value>(text).expect("valid JSON"))
}

fn at<'a>(v: &'a JsonValue, path: &[&str]) -> &'a JsonValue {
    let mut cur = v;
    for key in path {
        cur = match key.parse::<usize>() {
            Ok(i) => cur.at(i).expect("element"),
            Err(_) => cur.get(key).expect("member"),
        };
    }
    cur
}

fn url(kind: ProviderKind, platform: &str, id: &str) -> Option<String> {
    post_url(kind, platform, id, None)
}

fn provider_name(name: &str, key: &str) -> &'static str {
    build_provider(name, key.to_string()).expect("known provider").name()
}

// ── providers are built by name ──────────────────────────────────────────────

#[test]
fn test_ayrshare_provider_stores_client() {
    assert_eq!(provider_name("ayrshare", "test-api-key"), "ayrshare");
}

#[test]
fn test_ayrshare_provider_instantiation() {
    let _provider = build_provider("ayrshare", "api-key-xyz".to_string()).expect("built");
}

#[test]
fn buffer_test_buffer_provider_stores_client() {
    assert_eq!(provider_name("buffer", "test-api-key"), "buffer");
}

#[test]
fn buffer_test_buffer_provider_instantiation() {
    let _provider = build_provider("buffer", "test-key-123".to_string()).expect("built");
}

#[test]
fn tests_test_buffer_provider_stores_client() {
    assert_eq!(provider_name("buffer", "test-api-key"), "buffer");
}

#[test]
fn tests_test_buffer_provider_instantiation() {
    let _provider = build_provider("buffer", "test-key-123".to_string()).expect("built");
}

#[test]
fn zernio_test_zernio_provider_stores_client() {
    assert_eq!(provider_name("zernio", "test-api-key"), "zernio");
}

#[test]
fn zernio_test_zernio_provider_instantiation() {
    let _provider = build_provider("zernio", "sk_test_12345".to_string()).expect("built");
}

#[test]
fn tests_test_zernio_provider_stores_client() {
    assert_eq!(provider_name("zernio", "test-api-key"), "zernio");
}

#[test]
fn tests_test_zernio_provider_instantiation() {
    let _provider = build_provider("zernio", "sk_test_12345".to_string()).expect("built");
}

#[test]
fn test_upload_post_provider_name() {
    assert_eq!(provider_name("upload_post", "test-key"), "upload_post");
}

#[test]
fn test_upload_post_provider_instantiation() {
    let _provider = build_provider("upload_post", "sk_test_12345".to_string()).expect("built");
}

#[test]
fn test_name_returns_outstand() {
    assert_eq!(provider_name("outstand", "key"), "outstand");
}

#[test]
fn build_provider_rejects_unknown_name() {
    assert_eq!(build_provider("myspace", "k".to_string()).unwrap_err(), "Unknown provider: myspace");
}

// ── post URLs ────────────────────────────────────────────────────────────────

#[test]
fn zernio_test_post_url_returns_correct_format_for_x() {
    assert_eq!(url(ProviderKind::Zernio, "x", "1234567890"), Some("https://x.com/i/web/status/1234567890".to_string()));
    assert_eq!(
        url(ProviderKind::Zernio, "twitter", "9876543210"),
        Some("https://x.com/i/web/status/9876543210".to_string())
    );
}

#[test]
fn zernio_test_post_url_returns_none_for_bluesky() {
    assert_eq!(url(ProviderKind::Zernio, "bluesky", "test-post-id"), None);
}

#[test]
fn zernio_test_post_url_returns_none_for_mastodon() {
    assert_eq!(url(ProviderKind::Zernio, "mastodon", "test-post-id"), None);
}

#[test]
fn zernio_test_post_url_returns_none_for_unsupported_platform() {
    assert_eq!(url(ProviderKind::Zernio, "unknown-platform", "test-id"), None);
}

#[test]
fn tests_test_post_url_returns_correct_format_for_x() {
    assert_eq!(url(ProviderKind::Zernio, "x", "1234567890"), Some("https://x.com/i/web/status/1234567890".to_string()));
    assert_eq!(
        url(ProviderKind::Zernio, "twitter", "9876543210"),
        Some("https://x.com/i/web/status/9876543210".to_string())
    );
}

#[test]
fn tests_test_post_url_returns_none_for_bluesky() {
    assert_eq!(url(ProviderKind::Zernio, "bluesky", "test-post-id"), None);
}

#[test]
fn tests_test_post_url_returns_none_for_mastodon() {
    assert_eq!(url(ProviderKind::Zernio, "mastodon", "test-post-id"), None);
}

#[test]
fn tests_test_post_url_returns_none_for_unsupported_platform() {
    assert_eq!(url(ProviderKind::Zernio, "unknown-platform", "test-id"), None);
}

#[test]
fn tests_schedule_test_post_url_returns_none_for_bluesky() {
    assert_eq!(url(ProviderKind::Ayrshare, "bluesky", "test-post-id"), None);
}

#[test]
fn tests_schedule_test_post_url_returns_none_for_mastodon() {
    assert_eq!(url(ProviderKind::Ayrshare, "mastodon", "test-post-id"), None);
}

#[test]
fn tests_schedule_test_post_url_returns_none_for_unsupported_platform() {
    assert_eq!(url(ProviderKind::Ayrshare, "unknown-platform", "test-id"), None);
}

#[test]
fn buffer_test_post_url_for_x() {
    assert_eq!(url(ProviderKind::Buffer, "x", "1234567890"), Some("https://x.com/i/web/status/1234567890".to_string()));
}

#[test]
fn buffer_test_post_url_for_facebook() {
    assert_eq!(url(ProviderKind::Buffer, "facebook", "123456"), Some("https://facebook.com/123456".to_string()));
}

#[test]
fn buffer_test_post_url_for_linkedin() {
    assert_eq!(
        url(ProviderKind::Buffer, "linkedin", "activity-123"),
        Some("https://linkedin.com/feed/update/activity-123".to_string())
    );
}

#[test]
fn buffer_test_post_url_for_instagram() {
    assert_eq!(url(ProviderKind::Buffer, "instagram", "ABC123"), Some("https://instagram.com/p/ABC123".to_string()));
}

#[test]
fn buffer_test_post_url_returns_none_for_unsupported() {
    assert_eq!(url(ProviderKind::Buffer, "bluesky", "test"), None);
    assert_eq!(url(ProviderKind::Buffer, "mastodon", "test"), None);
    assert_eq!(url(ProviderKind::Buffer, "unknown", "test"), None);
}

#[test]
fn tests_test_post_url_for_x() {
    assert_eq!(url(ProviderKind::Buffer, "x", "1234567890"), Some("https://x.com/i/web/status/1234567890".to_string()));
}

#[test]
fn tests_test_post_url_for_facebook() {
    assert_eq!(url(ProviderKind::Buffer, "facebook", "123456"), Some("https://facebook.com/123456".to_string()));
}

#[test]
fn tests_test_post_url_for_linkedin() {
    assert_eq!(
        url(ProviderKind::Buffer, "linkedin", "activity-123"),
        Some("https://linkedin.com/feed/update/activity-123".to_string())
    );
}

#[test]
fn tests_test_post_url_for_instagram() {
    assert_eq!(url(ProviderKind::Buffer, "instagram", "ABC123"), Some("https://instagram.com/p/ABC123".to_string()));
}

#[test]
fn tests_test_post_url_returns_none_for_unsupported() {
    assert_eq!(url(ProviderKind::Buffer, "bluesky", "test"), None);
    assert_eq!(url(ProviderKind::Buffer, "mastodon", "test"), None);
    assert_eq!(url(ProviderKind::Buffer, "unknown", "test"), None);
}

#[test]
fn tests_test_post_url_always_returns_none() {
    assert_eq!(url(ProviderKind::UploadPost, "bluesky", "some-id"), None);
    assert_eq!(url(ProviderKind::UploadPost, "x", "tweet-id"), None);
    assert_eq!(url(ProviderKind::UploadPost, "linkedin", "post-id"), None);
}

#[test]
fn tests_test_post_url_returns_none() {
    assert_eq!(url(ProviderKind::Publer, "linkedin", "post-1"), None);
}

#[test]
fn substack_notes_test_post_url_uses_cached_username() {
    assert_eq!(
        post_url(ProviderKind::SubstackNotes, "substack", "note-123", Some("myhandle")),
        Some("https://substack.com/@myhandle/note/note-123".to_string())
    );
}

#[test]
fn substack_notes_test_post_url_returns_none_when_username_unknown() {
    assert_eq!(post_url(ProviderKind::SubstackNotes, "substack", "note-123", None), None);
}

#[test]
fn tests_test_post_url_uses_cached_username() {
    assert_eq!(
        post_url(ProviderKind::SubstackNotes, "substack", "note-123", Some("myhandle")),
        Some("https://substack.com/@myhandle/note/note-123".to_string())
    );
}

#[test]
fn tests_test_post_url_returns_none_when_username_unknown() {
    assert_eq!(post_url(ProviderKind::SubstackNotes, "substack", "note-123", None), None);
}

// ── Substack cookie header ───────────────────────────────────────────────────

#[test]
fn substack_notes_test_cookie_header_strips_control_characters() {
    let header = cookie_header("valid\r\nX-Injected: evil");
    assert!(!header.contains('\r'), "CR must be stripped");
    assert!(!header.contains('\n'), "LF must be stripped");
    assert_eq!(header, "connect.sid=validX-Injected: evil");
}

#[test]
fn tests_test_cookie_header_strips_control_characters() {
    let header = cookie_header("valid\r\nX-Injected: evil");
    assert!(!header.contains('\r'), "CR must be stripped");
    assert!(!header.contains('\n'), "LF must be stripped");
    assert_eq!(header, "connect.sid=validX-Injected: evil");
}

// ── Mastodon ─────────────────────────────────────────────────────────────────

#[test]
fn mastodon_test_parse_link_next_extracts_url() {
    let header = "<https://mastodon.social/api/v1/scheduled_statuses?max_id=3221>; rel=\"next\"";
    assert_eq!(
        parse_link_next(Some(header)),
        Some("https://mastodon.social/api/v1/scheduled_statuses?max_id=3221".to_string())
    );
}

#[test]
fn mastodon_test_parse_link_next_returns_none_when_no_next() {
    let header = "<https://mastodon.social/api/v1/scheduled_statuses?min_id=1>; rel=\"prev\"";
    assert_eq!(parse_link_next(Some(header)), None);
}

#[test]
fn mastodon_test_parse_link_next_returns_none_when_header_absent() {
    assert_eq!(parse_link_next(None), None);
}

#[test]
fn tests_helpers_test_parse_link_next_extracts_url() {
    let header = "<https://mastodon.social/api/v1/scheduled_statuses?max_id=3221>; rel=\"next\"";
    assert_eq!(
        parse_link_next(Some(header)),
        Some("https://mastodon.social/api/v1/scheduled_statuses?max_id=3221".to_string())
    );
}

#[test]
fn tests_helpers_test_parse_link_next_returns_none_when_no_next() {
    let header = "<https://mastodon.social/api/v1/scheduled_statuses?min_id=1>; rel=\"prev\"";
    assert_eq!(parse_link_next(Some(header)), None);
}

#[test]
fn tests_helpers_test_parse_link_next_returns_none_when_header_absent() {
    assert_eq!(parse_link_next(None), None);
}

#[test]
fn test_parse_link_next_returns_none_when_url_is_empty() {
    assert_eq!(parse_link_next(Some("<>; rel=\"next\"")), None);
}

#[test]
fn parse_link_next_picks_next_among_several() {
    let header = "<https://m.example/a?min_id=9>; rel=\"prev\", <https://m.example/a?max_id=7>; rel=\"next\"";
    assert_eq!(parse_link_next(Some(header)), Some("https://m.example/a?max_id=7".to_string()));
}

#[test]
fn test_map_scheduled_status_truncates_long_text() {
    let long_text = "a".repeat(100);
    let text = format!(
        "{{\"id\":\"123\",\"scheduled_at\":\"2024-06-01T12:00:00.000Z\",\"params\":{{\"text\":\"{}\"}}}}",
        long_text
    );
    let result = map_scheduled_status(&parse(&text)).unwrap();
    assert!(result.content_preview.ends_with("..."), "long text must be truncated with '...'");
    assert_eq!(result.content_preview.chars().count(), 83, "preview must be 80 chars + '...' = 83 chars total");
}

#[test]
fn mastodon_api_base_for_instance() {
    assert_eq!(api_base("mastodon.social"), "https://mastodon.social/api/v1");
}

// ── Publer request bodies and queue entries ──────────────────────────────────

#[test]
fn test_build_schedule_body_includes_platform_and_content() {
    let body = publer::build_schedule_body("hello", "x", None, None);
    assert_eq!(at(&body, &["bulk", "posts", "0", "networks", "x", "text"]).as_str(), Some("hello"));
}

#[test]
fn test_build_schedule_body_includes_profile_id_when_given() {
    let body = publer::build_schedule_body("hi", "x", None, Some("prof-1"));
    assert_eq!(at(&body, &["bulk", "posts", "0", "accounts", "0", "id"]).as_str(), Some("prof-1"));
}

#[test]
fn test_build_schedule_body_includes_scheduled_at_when_given() {
    let body = publer::build_schedule_body("hi", "x", Some(at_noon()), Some("prof-1"));
    let scheduled_at = at(&body, &["bulk", "posts", "0", "accounts", "0", "scheduled_at"]);
    assert!(scheduled_at.as_str().is_some(), "scheduled_at should be a string, got {:?}", scheduled_at);
    assert!(scheduled_at.as_str().unwrap().starts_with("2025-06-01"), "unexpected value: {:?}", scheduled_at);
}

#[test]
fn test_build_schedule_body_no_scheduled_at_when_no_profile() {
    let body = publer::build_schedule_body("hi", "x", None, None);
    match at(&body, &["bulk", "posts", "0", "accounts", "0"]) {
        JsonValue::Object(entries) => assert!(entries.is_empty()),
        other => panic!("expected an empty object, got {:?}", other),
    }
}

#[test]
fn test_parse_queued_post_returns_some_for_valid_entry() {
    let p = parse(r#"{"id":"post-42","account_id":"twitter","scheduled_at":"2025-07-01T09:00:00Z","text":"Short post"}"#);
    let result = publer::parse_queued_post(&p);
    assert!(result.is_some());
    let post = result.unwrap();
    assert_eq!(post.post_id, "post-42");
    assert_eq!(post.platform, "twitter");
    assert_eq!(post.content_preview, "Short post");
}

#[test]
fn test_parse_queued_post_returns_none_when_id_missing() {
    let p = parse(r#"{"account_id":"twitter","scheduled_at":"2025-07-01T09:00:00Z","text":"No id"}"#);
    assert!(publer::parse_queued_post(&p).is_none());
}

#[test]
fn test_parse_queued_post_returns_none_when_scheduled_at_missing() {
    let p = parse(r#"{"id":"post-1","account_id":"twitter","text":"No date"}"#);
    assert!(publer::parse_queued_post(&p).is_none());
}

#[test]
fn test_parse_queued_post_returns_none_when_scheduled_at_invalid() {
    let p = parse(r#"{"id":"post-1","account_id":"twitter","scheduled_at":"not-a-date","text":"Bad date"}"#);
    assert!(publer::parse_queued_post(&p).is_none());
}

#[test]
fn test_parse_queued_post_truncates_long_content() {
    let text = format!(
        "{{\"id\":\"post-1\",\"account_id\":\"twitter\",\"scheduled_at\":\"2025-07-01T09:00:00Z\",\"text\":\"{}\"}}",
        "a".repeat(100)
    );
    let post = publer::parse_queued_post(&parse(&text)).unwrap();
    assert!(post.content_preview.ends_with("..."), "expected truncation, got: {}", post.content_preview);
}

#[test]
fn test_parse_queued_post_does_not_truncate_short_content() {
    let text = format!(
        "{{\"id\":\"post-1\",\"account_id\":\"twitter\",\"scheduled_at\":\"2025-07-01T09:00:00Z\",\"text\":\"{}\"}}",
        "a".repeat(40)
    );
    let post = publer::parse_queued_post(&parse(&text)).unwrap();
    assert!(!post.content_preview.ends_with("..."), "expected no truncation, got: {}", post.content_preview);
}

#[test]
fn parse_queued_post_reads_the_instant_in_utc() {
    let p = parse(r#"{"id":"p","account_id":"x","scheduled_at":"2025-07-01T10:00:00+01:00","text":"t"}"#);
    let post = publer::parse_queued_post(&p).unwrap();
    assert_eq!(post.scheduled_for.secs, 1751360400);
    assert_eq!(post.scheduled_for.nanos, 0);
}

// ── Zernio request bodies ────────────────────────────────────────────────────

#[test]
fn test_build_schedule_body_sends_media_items_for_image() {
    let body = zernio::build_schedule_body(
        "Post with image",
        "bluesky",
        None,
        Some("https://example.com/image.jpg"),
        Some("profile-123"),
    );
    let media_items = body.get("mediaItems").expect("mediaItems present");
    assert!(media_items.as_array().is_some(), "mediaItems must be an array, got: {:?}", body);
    assert_eq!(at(media_items, &["0", "type"]).as_str(), Some("image"));
    assert_eq!(at(media_items, &["0", "url"]).as_str(), Some("https://example.com/image.jpg"));
    assert!(body.get("imageUrl").map_or(true, |v| v.is_null()), "imageUrl must be absent when mediaItems is used");
}

#[test]
fn test_build_schedule_body_omits_media_items_when_no_image() {
    let body = zernio::build_schedule_body("No image post", "bluesky", None, None, None);
    assert!(body.get("mediaItems").map_or(true, |v| v.is_null()), "mediaItems must be absent when no image provided");
}

// ── Zernio: content already posted ───────────────────────────────────────────

#[test]
fn test_schedule_post_409_already_posted_returns_existing_id() {
    assert!(zernio::is_already_posted(409));
    assert!(!zernio::is_already_posted(200));
    let text = r#"{"error":"This exact content is already scheduled, publishing, or was posted to this account within the last 24 hours.","details":{"accountId":"6a123a802b2567671a2630fc","platform":"bluesky","existingPostId":"6a131ad0f3552164aa324dcf"}}"#;
    let result = zernio::conflict_result(&parse(text), text);
    assert!(result.is_ok(), "409 already-posted must resolve as success, got: {:?}", result);
    let schedule_result = result.unwrap();
    assert_eq!(schedule_result.scheduler_id, "6a131ad0f3552164aa324dcf");
    assert!(schedule_result.platform_url.is_none());
}

#[test]
fn test_schedule_post_409_missing_existing_post_id_returns_error() {
    let text = r#"{"error":"Conflict","details":{}}"#;
    let result = zernio::conflict_result(&parse(text), text);
    match result {
        Err(postlane::scheduling::ProviderError::Unknown(msg)) => {
            assert!(msg.contains("existingPostId"), "error must name the missing field: {}", msg);
        }
        other => panic!("Expected Unknown error, got {:?}", other),
    }
}

#[test]
fn zernio_schedule_body_sends_rfc3339_time() {
    let body = zernio::build_schedule_body("hi", "bluesky", Some(at_noon()), None, None);
    assert_eq!(body.get("scheduledFor").and_then(|v| v.as_str()), Some("2025-06-01T12:00:00+00:00"));
    assert_eq!(body.get("timezone").and_then(|v| v.as_str()), Some("UTC"));
    assert!(body.get("publishNow").is_none());
}

#[test]
fn ayrshare_schedule_body_sends_rfc3339_time() {
    let body = postlane::providers::ayrshare::build_schedule_body("hi", "x", Some(at_noon()), None, None);
    assert_eq!(body.get("scheduleDate").and_then(|v| v.as_str()), Some("2025-06-01T12:00:00+00:00"));
}

#[test]
fn publer_schedule_body_sends_rfc3339_time() {
    let body = publer::build_schedule_body("hi", "x", Some(at_noon()), Some("prof-1"));
    assert_eq!(
        at(&body, &["bulk", "posts", "0", "accounts", "0", "scheduled_at"]).as_str(),
        Some("2025-06-01T12:00:00+00:00")
    );
}

fn at_noon() -> postlane::providers::common::UtcTime {
    postlane::providers::common::UtcTime { secs: 1748779200, nanos: 0 }
}

#[test]
fn schedule_time_keeps_fractional_seconds() {
    let t = postlane::providers::common::UtcTime { secs: 1748779200, nanos: 250_000_000 };
    let body = zernio::build_schedule_body("hi", "bluesky", Some(t), None, None);
    assert_eq!(body.get("scheduledFor").and_then(|v| v.as_str()), Some("2025-06-01T12:00:00.250+00:00"));
}

fn zernio_reply(status: u16, body: &str) -> Result<postlane::scheduling::PostScheduleResult, postlane::scheduling::ProviderError> {
    let reply = serde_json::from_str::<serde_json::Value>(body)
        .map(|j| (jv(&j), j.to_string()))
        .map_err(|_| "error decoding response body".to_string());
    zernio::schedule_reply(status, std::time::Duration::from_secs(2), body.to_string(), reply)
}

#[test]
fn zernio_reply_reads_status_then_body() {
    assert_eq!(zernio_reply(401, "{}").unwrap_err(), ProviderError::AuthError("Invalid API key".to_string()));
    assert_eq!(zernio_reply(429, "{}").unwrap_err(), ProviderError::RateLimit(std::time::Duration::from_secs(2)));
    assert_eq!(
        zernio_reply(409, r#"{"details":{"existingPostId":"p-9"}}"#).unwrap().scheduler_id,
        "p-9"
    );
    assert_eq!(
        zernio_reply(500, "boom").unwrap_err(),
        ProviderError::HttpError { status: 500, body: "boom".to_string() }
    );
    assert_eq!(
        zernio_reply(200, "not json").unwrap_err(),
        ProviderError::Unknown("Failed to parse response: error decoding response body".to_string())
    );
    let ok = zernio_reply(200, r#"{"post":{"_id":"abc","platforms":[{"platformPostUrl":"https://x/1"}]}}"#).unwrap();
    assert_eq!(ok.scheduler_id, "abc");
    assert_eq!(ok.platform_url.as_deref(), Some("https://x/1"));
}

#[test]
fn link_header_parts_are_trimmed_of_unicode_white_space() {
    let header = "<https://m.example/a?max_id=1>; rel=\"prev\",\u{3000}<https://m.example/a?max_id=2>; rel=\"next\"\u{2028}";
    assert_eq!(parse_link_next(Some(header)), Some("https://m.example/a?max_id=2".to_string()));
}
