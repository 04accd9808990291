use postlane::identifiers::{bytes_hex, local_post_id, sha256_hex, webhook_post_id_at};
use postlane::ip_ranges::{is_private_host, is_private_ip, IpAddress};
use postlane::provider_policy::{
    mastodon_status_verdict, post_url, publer_rate_limit_secs, status_verdict, zernio_platform, StatusVerdict,
};
use postlane::scheduling::ProviderKind;

fn url(kind: ProviderKind, platform: &str, id: &str) -> Option<String> {
    post_url(kind, platform, id, None)
}

#[test]
fn test_post_url_returns_correct_format_for_x() {
    assert_eq!(url(ProviderKind::Zernio, "x", "1234567890"), Some("https://x.com/i/web/status/1234567890".to_string()));
    assert_eq!(
        url(ProviderKind::Zernio, "twitter", "9876543210"),
        Some("https://x.com/i/web/status/9876543210".to_string())
    );
}

#[test]
fn test_post_url_returns_none_for_bluesky() {
    assert_eq!(url(ProviderKind::Zernio, "bluesky", "test-post-id"), None);
}

#[test]
fn test_post_url_returns_none_for_mastodon() {
    assert_eq!(url(ProviderKind::Zernio, "mastodon", "test-post-id"), None);
}

#[test]
fn test_post_url_returns_none_for_unsupported_platform() {
    assert_eq!(url(ProviderKind::Zernio, "unknown-platform", "test-id"), None);
}

#[test]
fn test_post_url_returns_correct_format_for_twitter() {
    assert_eq!(
        url(ProviderKind::Ayrshare, "twitter", "1234567890"),
        Some("https://x.com/i/web/status/1234567890".to_string())
    );
    assert_eq!(url(ProviderKind::Ayrshare, "x", "9876543210"), Some("https://x.com/i/web/status/9876543210".to_string()));
}

#[test]
fn ayrshare_post_url_returns_none_for_other_platforms() {
    assert_eq!(url(ProviderKind::Ayrshare, "bluesky", "test-post-id"), None);
    assert_eq!(url(ProviderKind::Ayrshare, "mastodon", "test-post-id"), None);
    assert_eq!(url(ProviderKind::Ayrshare, "unknown-platform", "test-id"), None);
}

#[test]
fn test_post_url_for_x() {
    assert_eq!(url(ProviderKind::Buffer, "x", "1234567890"), Some("https://x.com/i/web/status/1234567890".to_string()));
}

#[test]
fn test_post_url_for_facebook() {
    assert_eq!(url(ProviderKind::Buffer, "facebook", "123456"), Some("https://facebook.com/123456".to_string()));
}

#[test]
fn test_post_url_for_linkedin() {
    assert_eq!(
        url(ProviderKind::Buffer, "linkedin", "activity-123"),
        Some("https://linkedin.com/feed/update/activity-123".to_string())
    );
}

#[test]
fn test_post_url_for_instagram() {
    assert_eq!(url(ProviderKind::Buffer, "instagram", "ABC123"), Some("https://instagram.com/p/ABC123".to_string()));
}

#[test]
fn test_post_url_returns_none_for_unsupported() {
    assert_eq!(url(ProviderKind::Buffer, "bluesky", "test"), None);
    assert_eq!(url(ProviderKind::Buffer, "mastodon", "test"), None);
    assert_eq!(url(ProviderKind::Buffer, "unknown", "test"), None);
}

#[test]
fn test_post_url_uses_cached_username() {
    assert_eq!(
        post_url(ProviderKind::SubstackNotes, "substack", "note-123", Some("myhandle")),
        Some("https://substack.com/@myhandle/note/note-123".to_string())
    );
}

#[test]
fn test_post_url_returns_none_when_username_unknown() {
    assert_eq!(post_url(ProviderKind::SubstackNotes, "substack", "note-123", None), None);
}

#[test]
fn test_post_url_always_returns_none() {
    assert_eq!(url(ProviderKind::UploadPost, "bluesky", "some-id"), None);
    assert_eq!(url(ProviderKind::UploadPost, "x", "tweet-id"), None);
    assert_eq!(url(ProviderKind::UploadPost, "linkedin", "post-id"), None);
}

#[test]
fn test_post_url_returns_none() {
    assert_eq!(url(ProviderKind::Publer, "x", "1"), None);
    assert_eq!(url(ProviderKind::Outstand, "x", "1"), None);
    assert_eq!(url(ProviderKind::Webhook, "x", "1"), None);
}

#[test]
fn status_verdicts_per_provider() {
    assert!(matches!(status_verdict(ProviderKind::Zernio, 200), StatusVerdict::Proceed));
    assert!(matches!(status_verdict(ProviderKind::Zernio, 429), StatusVerdict::RateLimited));
    assert!(matches!(status_verdict(ProviderKind::Zernio, 403), StatusVerdict::Proceed));
    match status_verdict(ProviderKind::Zernio, 401) {
        StatusVerdict::Auth(m) => assert_eq!(m, "Invalid API key"),
        other => panic!("unexpected {:?}", other),
    }
    match status_verdict(ProviderKind::Outstand, 403) {
        StatusVerdict::Auth(m) => assert_eq!(m, "Invalid Outstand API key"),
        other => panic!("unexpected {:?}", other),
    }
    match status_verdict(ProviderKind::Publer, 403) {
        StatusVerdict::Auth(m) => assert!(m.contains("paid plan"), "got {}", m),
        other => panic!("unexpected {:?}", other),
    }
    match status_verdict(ProviderKind::SubstackNotes, 401) {
        StatusVerdict::Auth(m) => assert!(m.contains("connect.sid"), "got {}", m),
        other => panic!("unexpected {:?}", other),
    }
    assert!(matches!(status_verdict(ProviderKind::Webhook, 401), StatusVerdict::Proceed));
    assert!(matches!(status_verdict(ProviderKind::Webhook, 429), StatusVerdict::RateLimited));
}

#[test]
fn mastodon_verdicts() {
    assert!(matches!(mastodon_status_verdict(401), StatusVerdict::Auth(_)));
    assert!(matches!(mastodon_status_verdict(429), StatusVerdict::RateLimited));
    assert!(matches!(mastodon_status_verdict(500), StatusVerdict::Proceed));
}

#[test]
fn publer_wait_is_clamped() {
    assert_eq!(publer_rate_limit_secs(None, 1000), 60);
    assert_eq!(publer_rate_limit_secs(Some(1030), 1000), 30);
    assert_eq!(publer_rate_limit_secs(Some(900), 1000), 1);
    assert_eq!(publer_rate_limit_secs(Some(1000), 1000), 1);
    assert_eq!(publer_rate_limit_secs(Some(1_000_000), 1000), 3600);
}

#[test]
fn zernio_platform_names() {
    assert_eq!(zernio_platform("x"), "twitter");
    assert_eq!(zernio_platform("bluesky"), "bluesky");
}

#[test]
fn test_sha256_hex_produces_64_char_hex() {
    let h = sha256_hex("test-input");
    assert_eq!(h.len(), 64, "expected 64-char SHA-256 hex, got {} chars: {}", h.len(), h);
}

#[test]
fn test_sha256_hex_is_deterministic() {
    assert_eq!(sha256_hex("/users/hugo/repos/desktop"), sha256_hex("/users/hugo/repos/desktop"));
}

#[test]
fn test_sha256_hex_different_inputs_differ() {
    assert_ne!(sha256_hex("/path/one"), sha256_hex("/path/two"));
}

#[test]
fn sha256_hex_known_values() {
    assert_eq!(sha256_hex(""), "e3b0c44298fc1c149afbf4c8996fb92427ae41e4649b934ca495991b7852b855");
    assert_eq!(sha256_hex("abc"), "ba7816bf8f01cfea414140de5dae2223b00361a396177a9cb410ff61f20015ad");
}

#[test]
fn bytes_hex_is_lower_case_two_digits() {
    assert_eq!(bytes_hex(&[0x00, 0x0f, 0xab, 0xff]), "000fabff");
    assert_eq!(bytes_hex(&[]), "");
}

#[test]
fn webhook_post_ids() {
    assert_eq!(webhook_post_id_at(0), "wh-0");
    assert_eq!(webhook_post_id_at(255), "wh-ff");
    assert_eq!(webhook_post_id_at(0x1a2b3c), "wh-1a2b3c");
    let id = local_post_id();
    assert!(id.starts_with("wh-"));
    assert!(id[3..].chars().all(|c| c.is_ascii_hexdigit() && !c.is_ascii_uppercase()));
}

fn v4(a: u8, b: u8, c: u8, d: u8) -> IpAddress {
    IpAddress::V4([a, b, c, d])
}

fn v6(s: [u16; 8]) -> IpAddress {
    IpAddress::V6(s)
}

#[test]
fn ipv4_loopback_is_private() {
    assert!(is_private_ip(v4(127, 0, 0, 1)));
}

#[test]
fn ipv4_rfc1918_10_is_private() {
    assert!(is_private_ip(v4(10, 0, 0, 1)));
}

#[test]
fn ipv4_rfc1918_172_is_private() {
    assert!(is_private_ip(v4(172, 20, 0, 1)));
    assert!(!is_private_ip(v4(172, 32, 0, 1)));
    assert!(!is_private_ip(v4(172, 15, 0, 1)));
}

#[test]
fn ipv4_rfc1918_192_168_is_private() {
    assert!(is_private_ip(v4(192, 168, 1, 1)));
}

#[test]
fn ipv4_link_local_is_private() {
    assert!(is_private_ip(v4(169, 254, 169, 254)));
}

#[test]
fn ipv4_broadcast_is_private() {
    assert!(is_private_ip(v4(255, 255, 255, 255)));
}

#[test]
fn ipv4_unspecified_is_private() {
    assert!(is_private_ip(v4(0, 0, 0, 0)));
}

#[test]
fn ipv6_loopback_is_private() {
    assert!(is_private_ip(v6([0, 0, 0, 0, 0, 0, 0, 1])));
}

#[test]
fn ipv6_unique_local_fc00_is_private() {
    assert!(is_private_ip(v6([0xfc00, 0, 0, 0, 0, 0, 0, 1])));
}

#[test]
fn ipv6_unique_local_fd00_is_private() {
    assert!(is_private_ip(v6([0xfd00, 0, 0, 0, 0, 0, 0, 1])));
}

#[test]
fn ipv6_link_local_is_private() {
    assert!(is_private_ip(v6([0xfe80, 0, 0, 0, 0, 0, 0, 1])));
}

#[test]
fn ipv4_public_is_not_private() {
    assert!(!is_private_ip(v4(93, 184, 216, 34)));
    assert!(!is_private_ip(v6([0x2606, 0x2800, 0x220, 1, 0x248, 0x1893, 0x25c8, 0x1946])));
}

#[test]
fn localhost_is_private_host() {
    assert!(is_private_host("localhost", None));
}

#[test]
fn localhost_localdomain_is_private_host() {
    assert!(is_private_host("localhost.localdomain", None));
}

#[test]
fn ip6_localhost_is_private_host() {
    assert!(is_private_host("ip6-localhost", None));
}

#[test]
fn ip6_loopback_is_private_host() {
    assert!(is_private_host("ip6-loopback", None));
}

#[test]
fn private_ip_string_is_private_host() {
    assert!(is_private_host("192.168.0.1", Some(v4(192, 168, 0, 1))));
}

#[test]
fn public_hostname_is_not_private_host() {
    assert!(!is_private_host("example.com", None));
    assert!(!is_private_host("8.8.8.8", Some(v4(8, 8, 8, 8))));
}

/// The `url` crate already reads IP hosts as addresses, so no domain host in
/// these cases is an IP literal.
fn literal(_host: &str) -> Option<IpAddress> {
    None
}

fn is_private_url(url: &str) -> bool {
    postlane::ip_ranges::is_private_url(url, literal)
}

#[test]
fn url_loopback_ipv4_is_private() {
    assert!(is_private_url("https://127.0.0.1/path"));
}

#[test]
fn url_loopback_ipv4_port_is_private() {
    assert!(is_private_url("https://127.0.0.1:8080/path"));
}

#[test]
fn url_rfc1918_10_is_private() {
    assert!(is_private_url("https://10.0.0.1/"));
}

#[test]
fn url_rfc1918_172_is_private() {
    assert!(is_private_url("https://172.20.0.1/"));
}

#[test]
fn url_rfc1918_192_168_is_private() {
    assert!(is_private_url("https://192.168.1.1/"));
}

#[test]
fn url_aws_metadata_is_private() {
    assert!(is_private_url("https://169.254.169.254/latest/meta-data/"));
}

#[test]
fn url_localhost_is_private() {
    assert!(is_private_url("https://localhost/"));
}

#[test]
fn url_localhost_localdomain_is_private() {
    assert!(is_private_url("https://localhost.localdomain/"));
}

#[test]
fn url_ipv6_loopback_is_private() {
    assert!(is_private_url("https://[::1]/"));
}

#[test]
fn url_ipv6_unique_local_fd00_is_private() {
    assert!(is_private_url("https://[fd00::1]/"));
}

#[test]
fn url_ipv6_unique_local_fc00_is_private() {
    assert!(is_private_url("https://[fc00::1]/"));
}

#[test]
fn url_broadcast_is_private() {
    assert!(is_private_url("https://255.255.255.255/"));
}

#[test]
fn url_unspecified_is_private() {
    assert!(is_private_url("https://0.0.0.0/"));
}

#[test]
fn url_public_domain_is_not_private() {
    assert!(!is_private_url("https://example.com/image.png"));
}

#[test]
fn url_cdn_is_not_private() {
    assert!(!is_private_url("https://images.unsplash.com/photo-123"));
}

#[test]
fn unparseable_url_is_private() {
    assert!(is_private_url("not-a-url"));
}

#[test]
fn file_url_no_host_is_private() {
    assert!(is_private_url("file:///etc/passwd"));
}

#[test]
fn url_public_ipv4_is_not_private() {
    assert!(!is_private_url("https://93.184.216.34/"));
    assert!(!is_private_url("https://[2606:2800:220:1:248:1893:25c8:1946]/"));
}

#[test]
fn url_domain_read_as_private_literal_is_private() {
    let reader = |h: &str| if h == "intranet.example" { Some(v4(10, 0, 0, 1)) } else { None };
    assert!(postlane::ip_ranges::is_private_url("https://intranet.example/", reader));
    assert!(!postlane::ip_ranges::is_private_url("https://example.com/", reader));
}
