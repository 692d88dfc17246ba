use daemon8::types::observation::{
    observation_search_text, Observation, ObservationKind, Origin, SourceLocation,
    OBSERVATION_SEARCH_TEXT_LIMIT_BYTES,
};
use daemon8::types::{
    AppName, Checkpoint, DevicePlatform, DeviceSerial, Filter, ObservationKindTag, OriginPattern,
    Severity, TabId, SYSTEM_TAG,
};

fn obs(origin: Origin, kind: ObservationKind) -> Observation {
    let kind_json = match &kind {
        ObservationKind::Log => "{\"type\":\"log\"}".to_string(),
        _ => "{}".to_string(),
    };
    Observation::new(
        origin,
        kind,
        kind_json,
        "{\"note\":\"roundtrip fixture\"}".to_string(),
        Severity::Info,
        None,
        0,
    )
}

#[test]
fn lib_filter_matches_honors_newtype_identity() {
    let matching = obs(
        Origin::Browser { tab_id: TabId::new("tab-1"), url: String::new() },
        ObservationKind::Log,
    );
    let other = obs(
        Origin::Browser { tab_id: TabId::new("tab-2"), url: String::new() },
        ObservationKind::Log,
    );
    let mut filter = Filter::default();
    filter.origins = Some(vec![OriginPattern::BrowserTab(TabId::new("tab-1"))]);
    assert!(filter.matches(&matching));
    assert!(!filter.matches(&other));
}

#[test]
fn observation_search_text_includes_filter_metadata() {
    let mut observation = obs(
        Origin::Device { serial: DeviceSerial::new("ABC123"), platform: DevicePlatform::Vega },
        ObservationKind::Exception {
            message: "surface failed".to_string(),
            trace: Some("stack".to_string()),
        },
    );
    observation.kind_json =
        "{\"type\":\"exception\",\"message\":\"surface failed\",\"trace\":\"stack\"}".to_string();
    observation.data = "{\"message\":\"HDMI overlay timeout\"}".to_string();
    observation.source_location = Some(SourceLocation {
        file: "src/device.rs".to_string(),
        line: 77,
        function: Some("render_overlay".to_string()),
    });
    observation.tags = Some(vec!["project:daemon8".to_string(), "domain:device".to_string()]);
    observation.service = Some("adb".to_string());
    observation.source = Some("device.logs".to_string());
    observation.source_instance = Some("ABC123/loggingctl".to_string());
    observation.correlation_id = Some("corr-1".to_string());
    observation.session_id = Some("session-1".to_string());
    observation.node_id = Some("node-1".to_string());

    let search_text = observation_search_text(&observation);

    assert!(search_text.contains("device:ABC123"));
    assert!(search_text.contains("project:daemon8"));
    assert!(search_text.contains("corr-1"));
    assert!(search_text.contains("adb"));
    assert!(search_text.contains("device.logs"));
    assert!(search_text.contains("ABC123/loggingctl"));
    assert!(search_text.contains("src/device.rs"));
    assert!(search_text.contains("surface failed"));
    assert!(search_text.len() <= OBSERVATION_SEARCH_TEXT_LIMIT_BYTES);
}

#[test]
fn filter_matches_provenance_fields() {
    let mut matching = obs(Origin::Application { name: AppName::new("cargo") }, ObservationKind::Log);
    matching.service = Some("cargo".to_string());
    matching.source = Some("cargo.check".to_string());
    matching.source_instance = Some("target/daemon8/cargo-check.log".to_string());

    let mut other = matching.clone();
    other.service = Some("codex".to_string());
    other.source = Some("codex.conversations".to_string());
    other.source_instance = Some("session.jsonl".to_string());

    let mut filter = Filter::default();
    filter.service = Some(vec!["cargo".to_string()]);
    filter.source = Some(vec!["cargo.check".to_string()]);
    filter.source_instance = Some(vec!["target/daemon8/cargo-check.log".to_string()]);
    assert!(filter.matches(&matching));
    assert!(!filter.matches(&other));
}

#[test]
fn filter_text_match_searches_materialized_metadata() {
    let mut matching =
        obs(Origin::Application { name: AppName::new("daemon8-test") }, ObservationKind::Log);
    matching.tags = Some(vec!["domain:device".to_string()]);
    matching.correlation_id = Some("corr-1".to_string());

    let other = obs(Origin::Application { name: AppName::new("daemon8-test") }, ObservationKind::Log);

    let mut tag_filter = Filter::default();
    tag_filter.text_match = Some("domain:device".to_string());
    assert!(tag_filter.matches(&matching));
    assert!(!tag_filter.matches(&other));

    let mut partial_filter = Filter::default();
    partial_filter.text_match = Some("dev".to_string());
    assert!(partial_filter.matches(&matching));
    assert!(!partial_filter.matches(&other));

    let mut origin_filter = Filter::default();
    origin_filter.text_match = Some("app:daemon8-test".to_string());
    assert!(origin_filter.matches(&matching));
    assert!(origin_filter.matches(&other));

    let mut blank_filter = Filter::default();
    blank_filter.text_match = Some("   ".to_string());
    assert!(blank_filter.matches(&other));
}

#[test]
fn lib_tab_id_equality_regardless_of_construction_path() {
    let from_str = TabId::new("abc");
    let from_string = TabId::new(&String::from("abc"));
    let from_copy = from_string.dup();
    assert_eq!(from_str, from_string);
    assert_eq!(from_string, from_copy);
    assert_eq!(from_str.as_str(), "abc");
}

#[test]
fn lib_system_tag_excluded_by_default() {
    let mut system_obs = obs(Origin::Application { name: AppName::new("hook") }, ObservationKind::Log);
    system_obs.tags = Some(vec![SYSTEM_TAG.to_string()]);

    let normal_obs = obs(Origin::Application { name: AppName::new("app") }, ObservationKind::Log);

    let default_filter = Filter::default();
    assert!(!default_filter.matches(&system_obs));
    assert!(default_filter.matches(&normal_obs));

    let mut include_filter = Filter::default();
    include_filter.include_system = Some(true);
    assert!(include_filter.matches(&system_obs));
    assert!(include_filter.matches(&normal_obs));
}

#[test]
fn filter_checks_since_severity_kinds_and_correlation() {
    let mut o = obs(Origin::Application { name: AppName::new("a") }, ObservationKind::Log);
    o.id = 10;
    o.severity = Severity::Warn;
    o.correlation_id = Some("c1".to_string());

    let mut f = Filter::default();
    f.since = Some(Checkpoint(10));
    assert!(!f.matches(&o));
    f.since = Some(Checkpoint(9));
    assert!(f.matches(&o));

    f.severity_min = Some(Severity::Error);
    assert!(!f.matches(&o));
    f.severity_min = Some(Severity::Warn);
    assert!(f.matches(&o));

    f.kinds = Some(vec![ObservationKindTag::Exception]);
    assert!(!f.matches(&o));
    f.kinds = Some(vec![ObservationKindTag::Exception, ObservationKindTag::Log]);
    assert!(f.matches(&o));
    f.kinds = Some(vec![]);
    assert!(f.matches(&o));

    f.correlation_id = Some("c2".to_string());
    assert!(!f.matches(&o));
    f.correlation_id = Some("c1".to_string());
    assert!(f.matches(&o));
}

#[test]
fn filter_tags_must_all_be_present() {
    let mut o = obs(Origin::Application { name: AppName::new("a") }, ObservationKind::Log);
    o.tags = Some(vec!["x".to_string(), "y".to_string()]);
    let mut f = Filter::default();
    f.tags = Some(vec!["x".to_string(), "y".to_string()]);
    assert!(f.matches(&o));
    f.tags = Some(vec!["x".to_string(), "z".to_string()]);
    assert!(!f.matches(&o));
    o.tags = None;
    f.tags = Some(vec!["x".to_string()]);
    assert!(!f.matches(&o));
}

#[test]
fn origin_patterns_parse_and_match() {
    let app = Origin::Application { name: AppName::new("web") };
    assert!(OriginPattern::parse("app").matches(&app));
    assert!(OriginPattern::parse("app:web").matches(&app));
    assert!(!OriginPattern::parse("app:api").matches(&app));
    assert!(!OriginPattern::parse("browser").matches(&app));
    let dev = Origin::Device { serial: DeviceSerial::new("S1"), platform: DevicePlatform::Android };
    assert!(OriginPattern::parse("device:S1").matches(&dev));
    assert!(OriginPattern::parse("device").matches(&dev));
}

#[test]
fn filter_copy_keeps_criteria() {
    let mut f = Filter::default();
    f.tags = Some(vec!["t".to_string()]);
    f.severity_min = Some(Severity::Error);
    let g = f.dup();
    assert_eq!(g.tags, Some(vec!["t".to_string()]));
    assert_eq!(g.severity_min, Some(Severity::Error));
}

#[test]
fn vec_forms_agree_with_joined_text() {
    let names: Vec<String> = vec!["log".into(), " metric ".into(), "bogus".into()];
    let joined = names.join(",");
    let a = Filter::kinds_from_vec(names.clone());
    let b = Filter::parse_kinds(&joined);
    assert_eq!(format!("{a:?}"), format!("{b:?}"));

    let origins: Vec<String> = vec!["app:web".into(), "browser".into(), " device:x1 ".into()];
    let joined = origins.join(",");
    let p = Filter::origins_from_vec(origins.clone());
    let q = Filter::parse_origins(&joined);
    assert_eq!(format!("{p:?}"), format!("{q:?}"));
    for (piece, pat) in origins.iter().zip(p.iter()) {
        let single = OriginPattern::parse(piece.trim());
        assert_eq!(format!("{single:?}"), format!("{pat:?}"));
    }
}
