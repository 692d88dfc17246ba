use daemon8::daemon::store::MemoryStore;
use daemon8::daemon::types::{Filter, Observation, ObservationKind, ObservationKindTag};
use daemon8::types::observation::Origin;
use daemon8::types::{AppName, Checkpoint, Severity};

fn make_obs(severity: Severity, kind: ObservationKind) -> Observation {
    Observation::new(
        Origin::Application { name: AppName::new("test-app") },
        kind,
        "{\"msg\":\"hello\"}".to_string(),
        severity,
        None,
        1_700_000_000_000_000_000,
    )
}

fn make_observation(timestamp_ns: u64) -> Observation {
    Observation::new(
        Origin::Application { name: AppName::new("test") },
        ObservationKind::Log,
        "{\"msg\":\"test\"}".to_string(),
        Severity::Info,
        None,
        timestamp_ns,
    )
}

fn count_of(counts: &[(String, usize)], name: &str) -> Option<usize> {
    counts.iter().find(|(n, _)| n == name).map(|(_, c)| *c)
}

#[test]
fn memory_insert_and_query_round_trip() {
    let mut store = MemoryStore::new();

    let obs = make_obs(Severity::Info, ObservationKind::Log);
    let id = store.insert(obs).unwrap();
    assert!(id > 0);

    let slice = store.query(&Filter::default()).unwrap();
    assert_eq!(slice.observations.len(), 1);
    assert_eq!(slice.observations[0].id, id);
    assert_eq!(slice.observations[0].severity, Severity::Info);
}

#[test]
fn memory_checkpoint_advances() {
    let mut store = MemoryStore::new();

    assert_eq!(store.checkpoint().0, 0);

    let id1 = store.insert(make_obs(Severity::Debug, ObservationKind::Log)).unwrap();
    assert_eq!(store.checkpoint().0, id1);

    let id2 = store.insert(make_obs(Severity::Warn, ObservationKind::Log)).unwrap();
    assert!(id2 > id1);
    assert_eq!(store.checkpoint().0, id2);

    let mut filter = Filter::default();
    filter.since = Some(Checkpoint(id1));
    let slice = store.query(&filter).unwrap();
    assert_eq!(slice.observations.len(), 1);
    assert_eq!(slice.observations[0].id, id2);
}

#[test]
fn memory_severity_filter() {
    let mut store = MemoryStore::new();
    store.insert(make_obs(Severity::Debug, ObservationKind::Log)).unwrap();
    store.insert(make_obs(Severity::Error, ObservationKind::Log)).unwrap();

    let mut filter = Filter::default();
    filter.severity_min = Some(Severity::Warn);
    let slice = store.query(&filter).unwrap();
    assert_eq!(slice.observations.len(), 1);
    assert_eq!(slice.observations[0].severity, Severity::Error);
}

#[test]
fn kind_filter() {
    let mut store = MemoryStore::new();
    store.insert(make_obs(Severity::Info, ObservationKind::Log)).unwrap();
    store
        .insert(make_obs(
            Severity::Info,
            ObservationKind::Exception { message: "boom".to_string(), trace: None },
        ))
        .unwrap();

    let mut filter = Filter::default();
    filter.kinds = Some(vec![ObservationKindTag::Exception]);
    let slice = store.query(&filter).unwrap();
    assert_eq!(slice.observations.len(), 1);
    assert_eq!(count_of(&slice.summary.counts_by_kind, "exception"), Some(1));
}

#[test]
fn cleanup_removes_old_observations() {
    let mut store = MemoryStore::new();

    let mut old = make_obs(Severity::Info, ObservationKind::Log);
    old.timestamp_ns = 1_000;
    store.insert(old).unwrap();

    let mut recent = make_obs(Severity::Info, ObservationKind::Log);
    recent.timestamp_ns = 2_000;
    store.insert(recent).unwrap();

    let deleted = store.cleanup_before(1_500).unwrap();
    assert_eq!(deleted, 1);

    let slice = store.query(&Filter::default()).unwrap();
    assert_eq!(slice.observations.len(), 1);
    assert_eq!(slice.observations[0].timestamp_ns, 2_000);
}

#[test]
fn cleanup_before_removes_old_observations() {
    let mut store = MemoryStore::new();

    store.insert(make_observation(1_000)).unwrap();
    store.insert(make_observation(2_000)).unwrap();
    store.insert(make_observation(3_000)).unwrap();

    let deleted = store.cleanup_before(2_500).unwrap();
    assert_eq!(deleted, 2, "observations at t=1000 and t=2000 should be deleted");

    let slice = store.query(&Filter::default()).unwrap();
    assert_eq!(slice.observations.len(), 1);
    assert_eq!(slice.observations[0].timestamp_ns, 3_000);
}

#[test]
fn oldest_id_and_limit() {
    let mut store = MemoryStore::new();
    assert_eq!(store.oldest_id(), None);
    let a = store.insert(make_observation(10)).unwrap();
    let b = store.insert(make_observation(20)).unwrap();
    let _c = store.insert(make_observation(30)).unwrap();
    assert_eq!(store.oldest_id(), Some(a));

    let mut filter = Filter::default();
    filter.limit = Some(2);
    let slice = store.query(&filter).unwrap();
    assert_eq!(slice.observations.len(), 2);
    assert_eq!(slice.observations[0].id, a);
    assert_eq!(slice.observations[1].id, b);
    assert_eq!(slice.checkpoint.0, b);
}

#[test]
fn summary_counts_and_ids() {
    let mut store = MemoryStore::new();
    store.insert(make_obs(Severity::Error, ObservationKind::Log)).unwrap();
    store.insert(make_obs(Severity::Info, ObservationKind::Log)).unwrap();
    let s = store.summary().unwrap();
    assert_eq!(s.observation_count, 2);
    assert_eq!(s.error_count_last_60s, 1);
}

#[test]
fn memory_query_follows_filter_matches() {
    let mut store = MemoryStore::new();
    store.insert(make_obs(Severity::Info, ObservationKind::Log)).unwrap();

    let mut filter = Filter::default();
    filter.origins = Some(vec![]);
    assert_eq!(store.query(&filter).unwrap().observations.len(), 1);

    let mut filter = Filter::default();
    filter.text_match = Some("HELLO".to_string());
    let slice = store.query(&filter).unwrap();
    assert_eq!(slice.observations.len(), 1);
    assert!(filter.matches(&slice.observations[0]));

    filter.text_match = Some("absent".to_string());
    assert!(store.query(&filter).unwrap().observations.is_empty());
}
