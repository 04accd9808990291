use postlane::ip_ranges::IpAddress;
use postlane::json::{JsonNumber, JsonValue};
use postlane::providers::{ayrshare, buffer, mastodon, outstand, publer, substack, upload_post, webhook, zernio};
use postlane::scheduling::ProviderError;
use std::time::Duration;

fn jv(v: &serde_json::Value) -> JsonValue {
    match v {
        serde_json::Value::Null => JsonValue::Null,
        serde_json::Value::Bool(b) => JsonValue::Bool(*b),
        serde_json::Value::Number(n) => {
            if let Some(u) = n.as_u64() {
                JsonValue::Number(JsonNumber::Unsigned(u))
            } else if let Some(i) = n.as_i64() {
                JsonValue::Number(JsonNumber::Negative(i))
            } else {
                JsonValue::Number(JsonNumber::Other(n.to_string()))
            }
        }
        serde_json::Value::String(s) => JsonValue::Str(s.clone()),
        serde_json::Value::Array(items) => JsonValue::Array(items.iter().map(jv).collect()),
        serde_json::Value::Object(map) => {
            JsonValue::Object(map.iter().map(|(k, v)| (k.clone(), jv(v))).collect())
        }
    }
}

fn parse(text: &str) -> JsonValue {
    jv(&serde_json::from_str::<serde_json::Value>(text).expect("valid JSON"))
}

fn secs(rfc3339: &str) -> i64 {
    chrono::DateTime::parse_from_rfc3339(rfc3339).unwrap().timestamp()
}

// ── Zernio ───────────────────────────────────────────────────────────────────

#[test]
fn zernio_schedule_result_reads_post_id_and_url() {
    let json = parse(r#"{"post":{"_id":"6a13","platforms":[{"platformPostUrl":"https://x.com/i/1"}]}}"#);
    let r = zernio::schedule_result(&json, "{...}").unwrap();
    assert_eq!(r.scheduler_id, "6a13");
    assert_eq!(r.platform_url.as_deref(), Some("https://x.com/i/1"));
    let missing = zernio::schedule_result(&parse(r#"{"post":{}}"#), "{\"post\":{}}").unwrap_err();
    assert_eq!(
        missing,
        ProviderError::Unknown("Missing post._id in response. Full response: {\"post\":{}}".to_string())
    );
}

#[test]
fn zernio_profiles_normalise_twitter_to_x() {
    let json = parse(
        r#"{"accounts":[{"_id":"a1","username":"alice","platform":"twitter"},
                        {"_id":"a2","name":"Bob","platform":"bluesky"},
                        {"_id":"a3","platform":"bluesky"}]}"#,
    );
    let profiles = zernio::profiles(&json, "").unwrap();
    assert_eq!(profiles.len(), 2);
    assert_eq!(profiles[0].id, "a1");
    assert_eq!(profiles[0].name, "alice");
    assert_eq!(profiles[0].platforms, vec!["x".to_string()]);
    assert_eq!(profiles[1].name, "Bob");
    assert_eq!(profiles[1].platforms, vec!["bluesky".to_string()]);
    assert!(zernio::profiles(&parse("{}"), "{}").is_err());
}

#[test]
fn zernio_queue_and_engagement() {
    let json = parse(
        r#"{"posts":[{"post_id":"p1","platform":"x","scheduled_for":"2026-05-01T10:00:00Z","content":"hello"},
                     {"post_id":"p2","platform":"x","scheduled_for":"not a time","content":"skipped"}]}"#,
    );
    let queue = zernio::queue(&json).unwrap();
    assert_eq!(queue.len(), 1);
    assert_eq!(queue[0].post_id, "p1");
    assert_eq!(queue[0].scheduled_for.secs, secs("2026-05-01T10:00:00Z"));
    assert_eq!(zernio::queue(&parse("{}")).unwrap_err(), ProviderError::Unknown("Missing posts array".to_string()));
    let e = zernio::engagement(&parse(r#"{"likes":3,"reposts":2,"replies":1,"impressions":99}"#));
    assert_eq!((e.likes, e.reposts, e.replies, e.impressions), (3, 2, 1, Some(99)));
    assert!(e.platform_url.is_none());
    let cancel = zernio::cancel_body("bluesky");
    assert_eq!(cancel.get("platform").and_then(|v| v.as_str()), Some("bluesky"));
}

// ── Ayrshare ─────────────────────────────────────────────────────────────────

#[test]
fn ayrshare_replies() {
    assert_eq!(ayrshare::schedule_result(&parse(r#"{"id":"post-1"}"#)).unwrap().scheduler_id, "post-1");
    assert_eq!(
        ayrshare::schedule_result(&parse("{}")).unwrap_err(),
        ProviderError::Unknown("Missing id in response".to_string())
    );
    let profiles = ayrshare::profiles(&parse(
        r#"{"profiles":[{"profileKey":"k1","title":"Main","platforms":["twitter",5,"linkedin"]},{"title":"no key"}]}"#,
    ))
    .unwrap();
    assert_eq!(profiles.len(), 1);
    assert_eq!(profiles[0].platforms, vec!["twitter".to_string(), "linkedin".to_string()]);
    let queue = ayrshare::queue(&parse(
        r#"{"posts":[{"id":"q1","platform":"twitter","scheduleDate":"2026-05-01T10:00:00Z","post":"text"}]}"#,
    ))
    .unwrap();
    assert_eq!(queue[0].content_preview, "text");
    let e = ayrshare::engagement(&parse(r#"{"likes":1,"retweets":2,"comments":3}"#));
    assert_eq!((e.likes, e.reposts, e.replies, e.impressions), (1, 2, 3, None));
}

// ── Buffer ───────────────────────────────────────────────────────────────────

#[test]
fn buffer_replies() {
    assert_eq!(buffer::schedule_result(&parse(r#"{"updates":[{"id":"u1"}]}"#)).unwrap().scheduler_id, "u1");
    assert_eq!(
        buffer::schedule_result(&parse(r#"{"updates":[]}"#)).unwrap_err(),
        ProviderError::Unknown("Missing update id in response".to_string())
    );
    let channel = parse(r#"{"id":"c1","service":"twitter"}"#);
    let pending = parse(
        r#"{"updates":[{"id":"u1","scheduled_at":1777629600,"text":"hi"},{"id":"u2","text":"no time"}]}"#,
    );
    let queue = buffer::channel_queue(&channel, &pending);
    assert_eq!(queue.len(), 1);
    assert_eq!(queue[0].platform, "twitter");
    assert_eq!(queue[0].scheduled_for.secs, 1777629600);
    let e = buffer::engagement(&parse(r#"{"statistics":{"likes":4,"shares":5,"comments":6,"reach":7}}"#));
    assert_eq!((e.likes, e.reposts, e.replies, e.impressions), (4, 5, 6, Some(7)));
}

// ── Outstand ─────────────────────────────────────────────────────────────────

#[test]
fn outstand_replies() {
    let r = outstand::schedule_result(&parse(r#"{"data":{"id":"o1","postUrl":"https://x.com/1"}}"#), "").unwrap();
    assert_eq!(r.scheduler_id, "o1");
    assert_eq!(r.platform_url.as_deref(), Some("https://x.com/1"));
    let profiles = outstand::profiles(&parse(r#"{"data":[{"id":"a1"},{"name":"no id"}]}"#));
    assert_eq!(profiles.len(), 1);
    assert_eq!(profiles[0].name, "");
    assert_eq!(profiles[0].platforms, vec!["unknown".to_string()]);
    let queue = outstand::queue(&parse(
        r#"{"data":[{"id":"p1","scheduledAt":"2026-05-01T10:00:00Z","containers":[{"content":"body"}]}]}"#,
    ));
    assert_eq!(queue[0].platform, "unknown");
    assert_eq!(queue[0].content_preview, "body");
    let e = outstand::engagement(&parse(r#"{"data":{"likes":1,"shares":2,"comments":3,"reach":4}}"#));
    assert_eq!((e.likes, e.reposts, e.replies, e.impressions), (1, 2, 3, Some(4)));
    assert!(outstand::check_cancel_status(200, Duration::from_secs(1)).is_ok());
}

// ── Publer ───────────────────────────────────────────────────────────────────

#[test]
fn publer_workspace_and_jobs() {
    assert_eq!(publer::auth_header("k"), "Bearer-API k");
    assert_eq!(publer::workspace_id(&parse(r#"[{"id":"ws-1"}]"#)).unwrap(), "ws-1");
    assert!(publer::workspace_id(&parse("[]")).is_err());
    assert_eq!(publer::job_id(&parse(r#"{"job_id":"j1"}"#), "").unwrap(), "j1");
    assert!(publer::job_id(&parse("{}"), "{}").is_err());
    assert!(publer::job_status(&parse(r#"{"status":"working"}"#), "").is_none());
    let timeout = publer::job_timeout_error("j1");
    assert!(matches!(timeout, ProviderError::Unknown(_)));
}

// ── Substack ─────────────────────────────────────────────────────────────────

#[test]
fn substack_replies() {
    let body = substack::build_note_body("hello");
    assert_eq!(body.get("body").and_then(|v| v.as_str()), Some("hello"));
    assert_eq!(body.get("type").and_then(|v| v.as_str()), Some("publication"));
    let r = substack::schedule_result(&parse(r#"{"id":"123"}"#), "", Some("me")).unwrap();
    assert_eq!(r.scheduler_id, "123");
    assert_eq!(r.platform_url.as_deref(), Some("https://substack.com/@me/note/123"));
    assert!(matches!(substack::cancel_error(), ProviderError::NotSupported(_)));
}

// ── Upload-Post ──────────────────────────────────────────────────────────────

#[test]
fn upload_post_replies() {
    assert_eq!(upload_post::auth_header("k"), "Apikey k");
    assert_eq!(upload_post::parse_scheduler_id(&parse(r#"{"job_id":"j1"}"#), "").unwrap(), "j1");
    assert_eq!(upload_post::parse_scheduler_id(&parse(r#"{"request_id":"r1"}"#), "").unwrap(), "r1");
    assert!(upload_post::parse_scheduler_id(&parse("{}"), "{}").is_err());
    assert_eq!(
        upload_post::parse_platform_list(&parse(r#"{"social_accounts":[{"platform":"x"},{"platform":"tiktok"}]}"#)),
        vec!["x".to_string(), "tiktok".to_string()]
    );
    assert_eq!(upload_post::parse_platform_list(&parse(r#"{"platforms":["x"]}"#)), vec!["x".to_string()]);
    let profiles =
        upload_post::parse_profiles(&parse(r#"{"profiles":[{"username":"bob","platforms":["x"]},{"id":"id2"}]}"#), "")
            .unwrap();
    assert_eq!(profiles.len(), 2);
    assert_eq!(profiles[1].name, "id2");
    assert!(upload_post::require_user(None).is_err());
    assert_eq!(upload_post::require_user(Some("bob")).unwrap(), "bob");
    assert_eq!(upload_post::image_file_name("https://cdn.example/a/b/photo.png"), "photo.png");
    assert!(matches!(upload_post::user_not_found_error("Bob"), ProviderError::HttpError { status: 404, .. }));
}

// ── Webhook ──────────────────────────────────────────────────────────────────

#[test]
fn webhook_url_checks() {
    assert!(webhook::validate_url("https://hooks.zapier.com/hooks/catch/1/abc").is_ok());
    assert_eq!(
        webhook::validate_url("http://hooks.zapier.com/x").unwrap_err(),
        ProviderError::InvalidInstance("Webhook URL must use https://".to_string())
    );
    assert_eq!(
        webhook::validate_url("https://").unwrap_err(),
        ProviderError::InvalidInstance("Webhook URL is not a valid URL.".to_string())
    );
    for private in [
        "https://localhost/x",
        "https://127.0.0.1/x",
        "https://10.1.2.3/x",
        "https://192.168.0.1/",
        "https://[::1]/x",
        "https://[fd00::1]/x",
        "https://[fe80::1]/x",
    ] {
        assert_eq!(
            webhook::validate_url(private).unwrap_err(),
            ProviderError::InvalidInstance("Webhook URL must not target a private or loopback address.".to_string()),
            "{private}"
        );
    }
    assert!(webhook::validate_url("https://[2606:2800:220:1:248:1893:25c8:1946]/x").is_ok());
    let payload = webhook::build_payload("hi", "x", None, Some("p1"));
    assert_eq!(payload.get("content").and_then(|v| v.as_str()), Some("hi"));
    assert!(payload.get("scheduled_at").map_or(false, |v| v.is_null()));
}

// ── Mastodon ─────────────────────────────────────────────────────────────────

#[test]
fn mastodon_replies() {
    let scheduled = mastodon::parse_schedule_response(&parse(r#"{"id":"9","scheduled_at":"2026-05-01T10:00:00Z","url":"u"}"#), "")
        .unwrap();
    assert_eq!(scheduled.scheduler_id, "9");
    assert!(scheduled.platform_url.is_none());
    let now = mastodon::parse_schedule_response(&parse(r#"{"id":"9","scheduled_at":null,"url":"https://m.s/@a/9"}"#), "")
        .unwrap();
    assert_eq!(now.platform_url.as_deref(), Some("https://m.s/@a/9"));
    assert_eq!(mastodon::instance_char_limit(&parse(r#"{"configuration":{"statuses":{"max_characters":1000}}}"#)), 1000);
    assert_eq!(mastodon::instance_char_limit(&parse("{}")), 500);
    let p = mastodon::profile(&parse(r#"{"id":"1","display_name":"","acct":"alice"}"#));
    assert_eq!(p.name, "alice");
    assert_eq!(mastodon::media_id(&parse(r#"{"id":"m1"}"#), "").unwrap(), "m1");
    assert!(mastodon::check_response_status(401, Duration::from_secs(1)).is_err());
    assert_eq!(
        mastodon::check_response_status(429, Duration::from_secs(7)).unwrap_err(),
        ProviderError::RateLimit(Duration::from_secs(7))
    );
}

#[test]
fn mastodon_address_checks() {
    let public = [(IpAddress::V4([203, 0, 113, 1]), "203.0.113.1".to_string())];
    assert!(mastodon::check_instance_addresses("example.social", &public).is_ok());
    let private = [(IpAddress::V4([10, 0, 0, 1]), "10.0.0.1".to_string())];
    assert!(matches!(
        mastodon::check_instance_addresses("evil.example", &private),
        Err(ProviderError::InvalidInstance(_))
    ));
    assert!(mastodon::check_image_addresses(&public).is_ok());
    assert!(mastodon::check_image_addresses(&private).is_err());
    assert_eq!(mastodon::image_url_host("https://cdn.example:8443/a.png").unwrap(), "cdn.example");
    assert!(mastodon::image_url_host("http://cdn.example/a.png").is_err());
}

#[test]
fn buffer_queue_reads_only_channels_with_a_string_id() {
    let channels = vec![
        parse(r#"{"id":"c1","service":"twitter"}"#),
        parse(r#"{"service":"linkedin"}"#),
        parse(r#"{"id":7,"service":"mastodon"}"#),
        parse(r#"{"id":"c4","service":"facebook"}"#),
    ];
    let ids = buffer::channel_ids(&channels);
    assert_eq!(ids, vec![(0, "c1".to_string()), (3, "c4".to_string())]);
}
