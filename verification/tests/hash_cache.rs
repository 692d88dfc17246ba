use daemon8::store::hash_cache::ObservationHashCache;
use daemon8::types::observation::{Observation, ObservationKind, Origin};
use daemon8::types::{AppName, Severity};

fn make_obs(severity: Severity, kind: ObservationKind) -> Observation {
    Observation::new(
        Origin::Application { name: AppName::new("test") },
        kind,
        "{}".to_string(),
        "{\"msg\":\"test\"}".to_string(),
        severity,
        None,
        1_000,
    )
}

#[test]
fn identical_observations_produce_same_hash() {
    let a = make_obs(Severity::Error, ObservationKind::Log);
    let b = make_obs(Severity::Error, ObservationKind::Log);
    assert_eq!(
        ObservationHashCache::dedup_fingerprint(&a),
        ObservationHashCache::dedup_fingerprint(&b)
    );
}

#[test]
fn different_severity_produces_different_hash() {
    let a = make_obs(Severity::Error, ObservationKind::Log);
    let b = make_obs(Severity::Info, ObservationKind::Log);
    assert_ne!(
        ObservationHashCache::dedup_fingerprint(&a),
        ObservationHashCache::dedup_fingerprint(&b)
    );
}

#[test]
fn cache_hit_on_duplicate() {
    let mut cache = ObservationHashCache::new();
    let obs = make_obs(Severity::Error, ObservationKind::Log);
    let hash = ObservationHashCache::dedup_fingerprint(&obs);

    assert!(!cache.contains_or_insert(hash));
    assert!(cache.contains_or_insert(hash));
}

#[test]
fn volatile_metadata_excluded_from_fingerprint() {
    let mut a = make_obs(Severity::Info, ObservationKind::Log);
    let mut b = make_obs(Severity::Info, ObservationKind::Log);

    a.debug_session_id = Some("ds_aaa".to_string());
    a.node_id = Some("node-1".to_string());
    a.tags = Some(vec!["project:x".to_string()]);
    a.session_id = Some("mcp-1".to_string());
    a.checkpoint_id = Some("cp-1".to_string());
    a.correlation_id = Some("corr-1".to_string());

    b.debug_session_id = Some("ds_zzz".to_string());
    b.node_id = Some("node-2".to_string());
    b.tags = Some(vec!["project:y".to_string()]);
    b.session_id = Some("mcp-2".to_string());
    b.checkpoint_id = Some("cp-2".to_string());
    b.correlation_id = Some("corr-2".to_string());

    assert_eq!(
        ObservationHashCache::dedup_fingerprint(&a),
        ObservationHashCache::dedup_fingerprint(&b),
    );
}

#[test]
fn different_data_produces_different_fingerprint() {
    let mut a = make_obs(Severity::Info, ObservationKind::Log);
    let mut b = make_obs(Severity::Info, ObservationKind::Log);
    a.data = "{\"msg\":\"hello\"}".to_string();
    b.data = "{\"msg\":\"world\"}".to_string();
    assert_ne!(
        ObservationHashCache::dedup_fingerprint(&a),
        ObservationHashCache::dedup_fingerprint(&b),
    );
}

#[test]
fn query_same_sql_different_duration_same_fingerprint() {
    let a = make_obs(
        Severity::Info,
        ObservationKind::Query { sql: "SELECT 1".to_string(), duration_ms_bits: 5.0f64.to_bits() },
    );
    let b = make_obs(
        Severity::Info,
        ObservationKind::Query { sql: "SELECT 1".to_string(), duration_ms_bits: 500.0f64.to_bits() },
    );
    assert_eq!(
        ObservationHashCache::dedup_fingerprint(&a),
        ObservationHashCache::dedup_fingerprint(&b),
    );
}

#[test]
fn different_sql_produces_different_fingerprint() {
    let a = make_obs(
        Severity::Info,
        ObservationKind::Query { sql: "SELECT 1".to_string(), duration_ms_bits: 0 },
    );
    let b = make_obs(
        Severity::Info,
        ObservationKind::Query { sql: "SELECT 2".to_string(), duration_ms_bits: 0 },
    );
    assert_ne!(
        ObservationHashCache::dedup_fingerprint(&a),
        ObservationHashCache::dedup_fingerprint(&b),
    );
}

#[test]
fn id_and_timestamp_excluded_from_fingerprint() {
    let a = make_obs(Severity::Warn, ObservationKind::Log);
    let mut b = make_obs(Severity::Warn, ObservationKind::Log);
    b.id = 99;
    b.timestamp_ns = 123_456;
    assert_eq!(
        ObservationHashCache::dedup_fingerprint(&a),
        ObservationHashCache::dedup_fingerprint(&b),
    );
}

#[test]
fn default_cache_starts_empty_and_records_distinct_keys() {
    let mut cache = ObservationHashCache::default();
    assert!(!cache.contains_or_insert(1));
    assert!(!cache.contains_or_insert(2));
    assert!(cache.contains_or_insert(1));
    assert!(cache.contains_or_insert(2));
}
