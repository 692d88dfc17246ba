use daemon8::store::lens::{ActiveLens, LensManager, DEFAULT_CAPACITY};
use daemon8::types::observation::{Observation, ObservationKind, Origin};
use daemon8::types::{AppName, Filter, Severity};

fn make_obs(id: u64, severity: Severity, tag: &str) -> Observation {
    let mut obs = Observation::new(
        Origin::Application { name: AppName::new("test") },
        ObservationKind::Log,
        "{\"type\":\"log\"}".to_string(),
        format!("{{\"msg\":\"{tag}\"}}"),
        severity,
        None,
        id * 1000,
    );
    obs.id = id;
    obs.tags = Some(vec![tag.to_string()]);
    obs
}

#[test]
fn active_lens_filters_and_buffers() {
    let mut filter = Filter::default();
    filter.tags = Some(vec!["important".to_string()]);
    let mut lens = ActiveLens::new(filter, 10);

    lens.push(make_obs(1, Severity::Info, "important"));
    lens.push(make_obs(2, Severity::Info, "noise"));
    lens.push(make_obs(3, Severity::Error, "important"));

    assert_eq!(lens.buffer.len(), 2);
    assert_eq!(lens.cursor, 3);
}

#[test]
fn ring_buffer_evicts_oldest() {
    let filter = Filter::default();
    let mut lens = ActiveLens::new(filter, 3);

    for i in 1..=5 {
        lens.push(make_obs(i, Severity::Info, "x"));
    }

    assert_eq!(lens.buffer.len(), 3);
    assert_eq!(lens.buffer[0].id, 3);
    assert_eq!(lens.buffer[2].id, 5);
}

#[test]
fn drain_empties_buffer() {
    let filter = Filter::default();
    let mut lens = ActiveLens::new(filter, 10);
    lens.push(make_obs(1, Severity::Info, "a"));
    lens.push(make_obs(2, Severity::Info, "b"));

    let drained = lens.drain();
    assert_eq!(drained.len(), 2);
    assert_eq!(lens.buffer.len(), 0);
    assert_eq!(lens.cursor, 2);
}

#[test]
fn zero_capacity_lens_keeps_latest_only() {
    let mut lens = ActiveLens::new(Filter::default(), 0);
    lens.push(make_obs(1, Severity::Info, "a"));
    lens.push(make_obs(2, Severity::Info, "b"));
    assert_eq!(lens.buffer.len(), 1);
    assert_eq!(lens.buffer[0].id, 2);
}

#[test]
fn cursor_never_decreases() {
    let mut lens = ActiveLens::new(Filter::default(), 10);
    lens.push(make_obs(7, Severity::Info, "a"));
    lens.push(make_obs(3, Severity::Info, "b"));
    assert_eq!(lens.cursor, 7);
    assert_eq!(lens.buffer.len(), 2);
}

#[test]
fn lens_manager_lifecycle_without_runtime() {
    let mut manager = LensManager::new();
    let status = manager.status();
    assert!(!status.active);
    assert!(status.filter.is_none());
    assert_eq!(status.buffered, 0);
    assert_eq!(status.capacity, 0);

    let mut filter = Filter::default();
    filter.severity_min = Some(Severity::Warn);
    manager.set(filter);

    manager.observe(make_obs(1, Severity::Warn, "w"));
    manager.observe(make_obs(2, Severity::Info, "i"));
    manager.observe(make_obs(3, Severity::Error, "e"));

    let status = manager.status();
    assert!(status.active);
    assert_eq!(status.buffered, 2);
    assert_eq!(status.capacity, DEFAULT_CAPACITY);
    assert_eq!(status.cursor, 3);
    assert_eq!(status.filter.unwrap().severity_min, Some(Severity::Warn));

    let drained = manager.drain();
    assert_eq!(drained.len(), 2);
    assert_eq!(drained[0].severity, Severity::Warn);
    assert_eq!(drained[1].severity, Severity::Error);

    assert_eq!(manager.status().buffered, 0);

    manager.clear();
    assert!(!manager.status().active);
    assert!(manager.drain().is_empty());
}
