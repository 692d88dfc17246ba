use daemon8::daemon::client::{
    base_url, format_number, format_origin, format_timestamp, query_url, tail_url, truncate,
    urlenc, ClientArgs, QueryArgs, TailArgs,
};
use daemon8::daemon::init::{check_role, derive_slug, render_template};
use daemon8::types::observation::{AppName, DeviceSerial, Origin, TabId};
use daemon8::types::DevicePlatform;

#[test]
fn format_timestamp_midnight() {
    assert_eq!(format_timestamp(0), "00:00:00");
}

#[test]
fn format_timestamp_midday() {
    // 12:34:56 UTC = (12*3600 + 34*60 + 56) seconds = 45296 seconds
    let ns = 45_296_000_000_000u64;
    assert_eq!(format_timestamp(ns), "12:34:56");
}

#[test]
fn truncate_short_string() {
    assert_eq!(truncate("hello", 10), "hello");
}

#[test]
fn truncate_long_string() {
    let long = "a".repeat(200);
    let result = truncate(&long, 50);
    assert!(result.ends_with("..."));
    assert!(result.len() <= 50);
}

#[test]
fn urlenc_preserves_unreserved() {
    assert_eq!(urlenc("hello-world_42"), "hello-world_42");
}

#[test]
fn urlenc_encodes_special_chars() {
    assert_eq!(urlenc("a b"), "a%20b");
    assert_eq!(urlenc("foo=bar"), "foo%3Dbar");
}

#[test]
fn format_number_thousands() {
    assert_eq!(format_number(0), "0");
    assert_eq!(format_number(999), "999");
    assert_eq!(format_number(1_000), "1,000");
    assert_eq!(format_number(1_234_567), "1,234,567");
}

#[test]
fn format_origin_variants() {
    let app = Origin::Application {
        name: AppName::new("myapp"),
    };
    assert_eq!(format_origin(&app), "app:myapp");

    let browser = Origin::Browser {
        tab_id: TabId::new("tab1"),
        url: "https://example.com".into(),
    };
    assert_eq!(format_origin(&browser), "browser:https://example.com");

    let device = Origin::Device {
        serial: DeviceSerial::new("ABC123"),
        platform: DevicePlatform::default(),
    };
    assert_eq!(format_origin(&device), "device:ABC123");
}

#[test]
fn template_includes_slug_and_role() {
    let out = render_template("my-proj", "worker");
    assert!(out.contains(r#"slug = "my-proj""#));
    assert!(out.contains(r#"role_default = "worker""#));
}

#[test]
fn derive_slug_uses_basename() {
    assert_eq!(derive_slug("/tmp/foo/bar"), "bar");
}

#[test]
fn derive_slug_falls_back_to_project() {
    assert_eq!(derive_slug("/"), "project");
}

#[test]
fn role_must_be_known() {
    assert_eq!(check_role("queen"), Ok("queen".to_string()));
    assert_eq!(
        check_role("king"),
        Err("invalid --role 'king'; expected one of: queen, worker, solo, watchdog".to_string())
    );
}

#[test]
fn base_url_names_localhost_port() {
    assert_eq!(base_url(9077), "http://localhost:9077");
}

#[test]
fn truncate_counts_characters_not_bytes() {
    assert_eq!(truncate("ééééé", 4), "é...");
    assert_eq!(truncate("abcdef", 2), "...");
}

#[test]
fn urlenc_encodes_utf8_bytes_uppercase() {
    assert_eq!(urlenc("é"), "%C3%A9");
    assert_eq!(urlenc("a,b.c~"), "a,b.c~");
}

#[test]
fn format_number_pads_inner_groups() {
    assert_eq!(format_number(1_000_001), "1,000,001");
    assert_eq!(format_number(12_050), "12,050");
}

#[test]
fn format_timestamp_wraps_each_day() {
    assert_eq!(format_timestamp(86_400_000_000_000 + 61_000_000_000), "00:01:01");
}

#[test]
fn query_url_lists_parameters_in_order() {
    let args = QueryArgs {
        client: ClientArgs { port: None, json: false },
        kind: Some("log,query".into()),
        severity: Some("warn".into()),
        origin: None,
        text: Some("a b".into()),
        since: Some(7),
        limit: 50,
    };
    assert_eq!(
        query_url(&args, 9077),
        "http://localhost:9077/api/observe?kinds=log,query&severity_min=warn&text_match=a%20b&since=7&limit=50"
    );
}

#[test]
fn tail_url_drops_unknown_severity() {
    let mut args = TailArgs {
        client: ClientArgs { port: Some(1), json: false },
        kind: None,
        severity: Some("loud".into()),
        origin: None,
        no_color: false,
    };
    assert_eq!(tail_url(&args, 1), "http://localhost:1/api/stream");
    args.severity = Some("ERROR".into());
    assert_eq!(
        tail_url(&args, 1),
        "http://localhost:1/api/stream?severity_min=ERROR"
    );
}

#[test]
fn resolved_port_prefers_flag_then_config() {
    let a = ClientArgs { port: Some(1234), json: false };
    assert_eq!(a.resolved_port(Some(5)), 1234);
    let b = ClientArgs { port: None, json: false };
    assert_eq!(b.resolved_port(Some(5)), 5);
    assert_eq!(b.resolved_port(None), 9077);
}
