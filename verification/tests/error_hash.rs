use daemon8::store::error_hash::{
    bump_observations, extract_error_text, hash_error, hash_tag, normalize_error_text, parse_u64,
    rotate_seen_tag, sha256_bytes,
};
use daemon8::types::observation::{Observation, ObservationKind, Origin, SourceLocation};
use daemon8::types::{AppName, Severity};

fn make_error_obs(message: &str, trace: Option<&str>) -> Observation {
    let mut obs = Observation::new(
        Origin::Application { name: AppName::new("daemon8") },
        ObservationKind::Exception {
            message: message.to_string(),
            trace: trace.map(String::from),
        },
        "{}".to_string(),
        "{}".to_string(),
        Severity::Error,
        Some(SourceLocation { file: "src/foo.rs".to_string(), line: 42, function: None }),
        0,
    );
    obs.id = 0;
    obs
}

#[test]
fn normalizes_numbers() {
    let n = normalize_error_text("connection refused on port 12345 to host x");
    assert_eq!(n, "connection refused on port <NUM> to host x");
}

#[test]
fn normalizes_uuids() {
    let n = normalize_error_text("request 550e8400-e29b-41d4-a716-446655440000 failed");
    assert_eq!(n, "request <UUID> failed");
}

#[test]
fn normalizes_paths() {
    let n = normalize_error_text("file /Users/foo/bar/baz.rs:42:11 not found");
    assert_eq!(n, "file <PATH> not found");
}

#[test]
fn normalizes_hex_addresses() {
    let n = normalize_error_text("segfault at 0xdeadbeef in module");
    assert_eq!(n, "segfault at <HEX> in module");
}

#[test]
fn collapses_whitespace() {
    let n = normalize_error_text("error\n\tat foo\n\tat bar");
    assert_eq!(n, "error at foo at bar");
}

#[test]
fn structural_collisions_produce_same_hash() {
    let a = normalize_error_text("connection refused on port 8080 at 0xaabbccdd in worker 7");
    let b = normalize_error_text("connection refused on port 9999 at 0xddeeff00 in worker 12");
    assert_eq!(a, b);
    assert_eq!(hash_error(&a), hash_error(&b));
}

#[test]
fn distinct_errors_produce_distinct_hashes() {
    let a = hash_error(&normalize_error_text("DB connection refused"));
    let b = hash_error(&normalize_error_text("Permission denied for file"));
    assert_ne!(a, b);
}

#[test]
fn extracts_text_from_exception_kind() {
    let obs = make_error_obs("boom", Some("at frame 1"));
    let text = extract_error_text(&obs).unwrap();
    assert!(text.contains("boom"));
    assert!(text.contains("at frame 1"));
}

#[test]
fn extracts_nothing_from_log_info() {
    let mut obs = make_error_obs("boom", None);
    obs.kind = ObservationKind::Log;
    obs.severity = Severity::Info;
    assert!(extract_error_text(&obs).is_none());
}

#[test]
fn extracts_message_from_error_log() {
    let mut obs = make_error_obs("ignored", None);
    obs.kind = ObservationKind::Log;
    obs.severity = Severity::Error;
    obs.data = "{\"message\":\"disk full\"}".to_string();
    let text = extract_error_text(&obs).unwrap();
    assert_eq!(text, "disk full");
}

#[test]
fn extracts_error_field_when_no_message() {
    let mut obs = make_error_obs("ignored", None);
    obs.kind = ObservationKind::Log;
    obs.severity = Severity::Error;
    obs.data = "{\"error\":\"timeout\",\"message\":7}".to_string();
    assert_eq!(extract_error_text(&obs).unwrap(), "timeout");
    obs.data = "not json".to_string();
    assert!(extract_error_text(&obs).is_none());
}

#[test]
fn exception_text_joins_message_and_trace() {
    let obs = make_error_obs("boom", Some("at frame 1"));
    assert_eq!(extract_error_text(&obs).unwrap(), "boom\nat frame 1");
    let bare = make_error_obs("boom", None);
    assert_eq!(extract_error_text(&bare).unwrap(), "boom");
}

#[test]
fn hash_error_is_sha256_prefix_hex() {
    assert_eq!(hash_error("abc"), "ba7816bf8f01cfea");
    assert_eq!(hash_error("").len(), 16);
    assert_eq!(
        sha256_bytes(&b"abc".to_vec()),
        "ba7816bf8f01cfea414140de5dae2223b00361a396177a9cb410ff61f20015ad"
    );
}

#[test]
fn hash_tag_prefixes_hash() {
    assert_eq!(hash_tag("abc"), "hash:abc");
}

#[test]
fn parse_u64_accepts_only_digits() {
    assert_eq!(parse_u64("42"), Some(42));
    assert_eq!(parse_u64("0"), Some(0));
    assert_eq!(parse_u64("18446744073709551615"), Some(u64::MAX));
    assert_eq!(parse_u64("18446744073709551616"), None);
    assert_eq!(parse_u64(""), None);
    assert_eq!(parse_u64("4x"), None);
    assert_eq!(parse_u64("-1"), None);
}

#[test]
fn rotate_seen_tag_increments_count() {
    let mut tags = vec!["hash:abc".to_string(), "seen:3".to_string()];
    rotate_seen_tag(&mut tags);
    assert_eq!(tags, vec!["hash:abc".to_string(), "seen:4".to_string()]);

    let mut fresh = vec!["hash:abc".to_string()];
    rotate_seen_tag(&mut fresh);
    assert_eq!(fresh, vec!["hash:abc".to_string(), "seen:1".to_string()]);
}

#[test]
fn bump_observations_caps_list() {
    let mut list: Vec<u64> = (1..=50).collect();
    bump_observations(&mut list, 51);
    assert_eq!(list.len(), 50);
    assert_eq!(list[0], 2);
    assert_eq!(list[49], 51);

    let mut short = vec![1u64, 2];
    bump_observations(&mut short, 3);
    assert_eq!(short, vec![1, 2, 3]);
}
