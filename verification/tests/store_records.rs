use daemon8::store::envelope::{
    cancel_plan, check_cancellable, enqueue_statement, envelope_not_found, pending_query_sql,
};
use daemon8::store::error::StoreError;
use daemon8::store::error_hash::{first_sighting, repeat_sighting, signature_filter};
use daemon8::store::memory_sql::{content_hash_query, row_not_found, save_missing_id, save_statement};
use daemon8::store::sql::BindValue;
use daemon8::store::surreal::{into_observation, record_severity, ObsRecord};
use daemon8::types::envelope::EnvelopeStatus;
use daemon8::types::memory::MemoryScope;
use daemon8::types::observation::{Observation, ObservationKind, Origin, SourceLocation};
use daemon8::types::{AppName, MemoryKind, Severity};

fn obs() -> Observation {
    let mut o = Observation::new(
        Origin::Application { name: AppName::new("app") },
        ObservationKind::Log,
        "{\"type\":\"log\"}".to_string(),
        "{\"msg\":\"hi\"}".to_string(),
        Severity::Warn,
        Some(SourceLocation { file: "a.rs".to_string(), line: 9, function: Some("f".to_string()) }),
        123,
    );
    o.tags = Some(vec!["t".to_string()]);
    o.correlation_id = Some("c".to_string());
    o.service = Some("svc".to_string());
    o
}

#[test]
fn observation_record_roundtrip() {
    let o = obs();
    let rec = ObsRecord::from_observation(&o, 77, "{\"type\":\"application\",\"name\":\"app\"}".to_string());
    assert_eq!(rec.seq, 77);
    assert_eq!(rec.severity, "warn");
    assert_eq!(rec.kind_tag, "log");
    assert_eq!(rec.source_file.as_deref(), Some("a.rs"));
    assert_eq!(rec.source_line, Some(9));
    assert_eq!(rec.tags, Some(vec!["t".to_string()]));
    let sev = record_severity(&rec.severity).unwrap();
    let back = into_observation(rec, sev, Origin::Application { name: AppName::new("app") }, ObservationKind::Log);
    assert_eq!(back.id, 77);
    assert_eq!(back.severity, Severity::Warn);
    assert_eq!(back.timestamp_ns, 123);
    let loc = back.source_location.unwrap();
    assert_eq!((loc.file.as_str(), loc.line, loc.function), ("a.rs", 9, None));
    assert_eq!(back.correlation_id.as_deref(), Some("c"));
    assert!(back.service.is_none());
}

#[test]
fn record_severity_refuses_unknown_names() {
    match record_severity("loud") {
        Err(StoreError::Db(m)) => assert_eq!(m, "invalid severity: loud"),
        _ => panic!("expected refusal"),
    }
    assert_eq!(record_severity("ERROR").unwrap(), Severity::Error);
}

#[test]
fn record_without_line_has_no_location() {
    let mut rec = ObsRecord::from_observation(&obs(), 1, "{}".to_string());
    rec.source_line = None;
    let back = into_observation(rec, Severity::Info, Origin::Application { name: AppName::new("a") }, ObservationKind::Log);
    assert!(back.source_location.is_none());
}

#[test]
fn signature_lookup_and_sightings() {
    let f = signature_filter("abc", "daemon8");
    assert_eq!(f.kinds.as_ref().map(|k| k.len()), Some(1));
    assert!(matches!(f.kinds.as_ref().unwrap()[0], MemoryKind::ErrorSignature));
    assert_eq!(f.tags, Some(vec!["hash:abc".to_string()]));
    assert_eq!(f.project_slug.as_deref(), Some("daemon8"));
    assert_eq!(f.limit, Some(1));

    let mut mem = first_sighting("abc", "connection refused on port <NUM>", "daemon8", 5, 100);
    assert_eq!(mem.content, "connection refused on port <NUM>");
    assert_eq!(mem.tags, vec!["hash:abc".to_string(), "seen:1".to_string()]);
    assert_eq!(mem.source_observations, vec![5]);
    assert!(repeat_sighting(&mut mem, 6, 200).is_err());

    mem.id = Some("m1".to_string());
    let id = repeat_sighting(&mut mem, 7, 300).unwrap();
    assert_eq!(id, "m1");
    assert_eq!(mem.tags, vec!["hash:abc".to_string(), "seen:3".to_string()]);
    assert_eq!(mem.source_observations, vec![5, 6, 7]);
    assert_eq!(mem.updated_at, 300);
    assert_eq!(mem.created_at, 100);
}

#[test]
fn pending_envelopes_statement() {
    let (sql, binds) = pending_query_sql("inbox-1", Some(50), Some(3));
    assert_eq!(
        sql,
        "SELECT * FROM envelope WHERE inbox_address = $addr AND status = 'queued' AND (deliver_after IS NONE OR deliver_after <= $now_ns) ORDER BY created_at ASC LIMIT 3"
    );
    assert_eq!(binds.len(), 2);
    assert!(matches!(binds[1].1, BindValue::Int(50)));
    let (sql, binds) = pending_query_sql("inbox-1", None, None);
    assert_eq!(
        sql,
        "SELECT * FROM envelope WHERE inbox_address = $addr AND status = 'queued' ORDER BY created_at ASC"
    );
    assert_eq!(binds.len(), 1);
}

#[test]
fn envelope_store_decisions() {
    assert_eq!(enqueue_statement("").0, "CREATE envelope CONTENT $content");
    let (sql, id) = enqueue_statement("e1");
    assert_eq!(sql, "UPSERT type::record('envelope', $id) CONTENT $content RETURN AFTER");
    assert_eq!(id.as_deref(), Some("e1"));
    match envelope_not_found("e9") {
        StoreError::Other(m) => assert_eq!(m, "envelope 'e9' not found"),
        _ => panic!("expected other"),
    }
    assert!(check_cancellable("e1", EnvelopeStatus::Queued).is_ok());
    assert!(check_cancellable("e1", EnvelopeStatus::Delivered).is_ok());
    match check_cancellable("e1", EnvelopeStatus::Read) {
        Err(StoreError::Other(m)) => {
            assert_eq!(m, "envelope 'e1' is in terminal state read and cannot be cancelled")
        }
        _ => panic!("expected refusal"),
    }
}

#[test]
fn memory_save_statements() {
    assert_eq!(save_statement("memory_short", None).0, "CREATE memory_short CONTENT $content");
    assert_eq!(save_statement("memory_long", Some("   ")).0, "CREATE memory_long CONTENT $content");
    let (sql, id) = save_statement("memory_long", Some("  m1 "));
    assert_eq!(sql, "UPSERT type::record('memory_long', $id) CONTENT $content RETURN AFTER");
    assert_eq!(id.as_deref(), Some("m1"));
    match save_missing_id("memory_short") {
        StoreError::Db(m) => assert_eq!(m, "memory_short save: no id returned"),
        _ => panic!("expected db"),
    }
    match row_not_found("memory_long", "x", " or already revoked") {
        StoreError::Other(m) => assert_eq!(m, "memory_long 'x' not found or already revoked"),
        _ => panic!("expected other"),
    }
    let (sql, binds) = content_hash_query("h1", Some(MemoryScope::Agent));
    assert_eq!(
        sql,
        "SELECT * FROM memory_long WHERE content_hash = $h AND scope = $s ORDER BY created_at ASC"
    );
    assert_eq!(binds.len(), 2);
    assert_eq!(
        content_hash_query("h1", None).0,
        "SELECT * FROM memory_long WHERE content_hash = $h ORDER BY created_at ASC"
    );
}

#[test]
fn cancel_plan_refuses_missing_and_terminal_envelopes() {
    match cancel_plan("e1", None, 9) {
        Err(StoreError::Other(m)) => assert_eq!(m, "envelope 'e1' not found"),
        other => panic!("unexpected {other:?}"),
    }
    match cancel_plan("e1", Some(EnvelopeStatus::Expired), 9) {
        Err(StoreError::Other(m)) => assert_eq!(
            m,
            "envelope 'e1' is in terminal state expired and cannot be cancelled"
        ),
        other => panic!("unexpected {other:?}"),
    }
    let (sql, binds) = cancel_plan("e1", Some(EnvelopeStatus::Queued), 9).unwrap();
    assert_eq!(sql, "UPDATE type::record('envelope', $id) SET status = 'cancelled', updated_at = $at");
    assert_eq!(binds.len(), 2);
    assert_eq!(binds[0].0, "id");
    assert!(matches!(&binds[1], (n, BindValue::Int(9)) if n == "at"));
}
