use daemon8::daemon::sqlite::{
    build_query_sql, checkpoint_from_max, finish_query, incremental_vacuum_sql, insert_values,
    observation_from_row, oldest_from_min, origin_like_clause, query_baseline, runtime_summary,
    severity_from_str, SqlParam,
};
use daemon8::daemon::types::{Filter, Observation, ObservationKind, ObservationKindTag};
use daemon8::types::observation::{Origin, SourceLocation};
use daemon8::types::{AppName, Checkpoint, DeviceSerial, HealthStatus, OriginPattern, Severity, TabId};

const HEAD: &str = "SELECT id, timestamp_ns, severity, kind_tag, origin_json, kind_json, data, source_file, source_line\n             FROM observations ";

fn text(p: &SqlParam) -> String {
    match p {
        SqlParam::Text(s) => s.clone(),
        SqlParam::Int(n) => format!("#{n}"),
    }
}

#[test]
fn empty_filter_selects_everything_in_id_order() {
    let (sql, params) = build_query_sql(&Filter::default());
    assert_eq!(sql, format!("{HEAD} ORDER BY id ASC "));
    assert!(params.is_empty());
}

#[test]
fn full_filter_numbers_parameters_in_order() {
    let mut f = Filter::default();
    f.severity_min = Some(Severity::Warn);
    f.kinds = Some(vec![ObservationKindTag::Log, ObservationKindTag::Exception]);
    f.since = Some(Checkpoint(7));
    f.text_match = Some("boom".to_string());
    f.origins = Some(vec![
        OriginPattern::AnyApplication,
        OriginPattern::DeviceSerial(DeviceSerial::new("S\"1")),
    ]);
    f.limit = Some(10);
    let (sql, params) = build_query_sql(&f);
    assert_eq!(
        sql,
        format!(
            "{HEAD}WHERE severity IN (?1,?2) AND kind_tag IN (?3,?4) AND id > ?5 AND data LIKE ?6 AND (origin_json LIKE '%\"type\":\"application\"%' OR origin_json LIKE '%\"serial\":\"S1\"%') ORDER BY id ASC LIMIT 10"
        )
    );
    let shown: Vec<String> = params.iter().map(text).collect();
    assert_eq!(shown, vec!["warn", "error", "log", "exception", "#7", "%boom%"]);
}

#[test]
fn empty_kind_list_adds_no_condition() {
    let mut f = Filter::default();
    f.kinds = Some(vec![]);
    f.since = Some(Checkpoint(3));
    let (sql, params) = build_query_sql(&f);
    assert_eq!(sql, format!("{HEAD}WHERE id > ?1 ORDER BY id ASC "));
    assert_eq!(params.len(), 1);
}

#[test]
fn trace_minimum_lists_all_severities() {
    let mut f = Filter::default();
    f.severity_min = Some(Severity::Trace);
    let (sql, params) = build_query_sql(&f);
    assert_eq!(sql, format!("{HEAD}WHERE severity IN (?1,?2,?3,?4,?5) ORDER BY id ASC "));
    let shown: Vec<String> = params.iter().map(text).collect();
    assert_eq!(shown, vec!["trace", "debug", "info", "warn", "error"]);
}

#[test]
fn origin_like_clauses_strip_quotes() {
    assert_eq!(
        origin_like_clause(&OriginPattern::ApplicationNamed(AppName::new("we\"b"))),
        "origin_json LIKE '%\"name\":\"web\"%'"
    );
    assert_eq!(
        origin_like_clause(&OriginPattern::BrowserTab(TabId::new("t1"))),
        "origin_json LIKE '%\"tab_id\":\"t1\"%'"
    );
    assert_eq!(
        origin_like_clause(&OriginPattern::AnyBrowser),
        "origin_json LIKE '%\"type\":\"browser\"%'"
    );
    assert_eq!(
        origin_like_clause(&OriginPattern::AnyDevice),
        "origin_json LIKE '%\"type\":\"device\"%'"
    );
}

#[test]
fn stored_severity_reads_leniently() {
    assert_eq!(severity_from_str("error"), Severity::Error);
    assert_eq!(severity_from_str("warn"), Severity::Warn);
    assert_eq!(severity_from_str("bogus"), Severity::Trace);
}

#[test]
fn insert_values_and_row_roundtrip() {
    let obs = Observation::new(
        Origin::Application { name: AppName::new("a") },
        ObservationKind::Exception { message: "m".to_string(), trace: None },
        "{}".to_string(),
        Severity::Error,
        Some(SourceLocation { file: "f.rs".to_string(), line: 12, function: None }),
        99,
    );
    let v = insert_values(&obs);
    assert_eq!(v.timestamp_ns, 99);
    assert_eq!(v.severity, "error");
    assert_eq!(v.kind_tag, "exception");
    assert_eq!(v.source_file.as_deref(), Some("f.rs"));
    assert_eq!(v.source_line, Some(12));

    let row = observation_from_row(
        5,
        99,
        "error",
        Origin::Application { name: AppName::new("a") },
        ObservationKind::Log,
        "{}".to_string(),
        Some("g.rs".to_string()),
        None,
    );
    assert_eq!(row.id, 5);
    assert_eq!(row.severity, Severity::Error);
    let loc = row.source_location.unwrap();
    assert_eq!(loc.file, "g.rs");
    assert_eq!(loc.line, 0);
}

#[test]
fn baseline_and_checkpoints() {
    assert_eq!(query_baseline(Some(Checkpoint(3)), 9), 3);
    assert_eq!(query_baseline(None, 9), 9);
    assert_eq!(checkpoint_from_max(0).0, 0);
    assert_eq!(checkpoint_from_max(41).0, 41);
    assert_eq!(oldest_from_min(None), None);
    assert_eq!(oldest_from_min(Some(4)), Some(4));
}

#[test]
fn finish_query_uses_baseline_when_empty() {
    let s = finish_query(vec![], 17);
    assert_eq!(s.checkpoint.0, 17);
    assert_eq!(s.summary.total, 0);
    let mut o = Observation::new(
        Origin::Application { name: AppName::new("a") },
        ObservationKind::Log,
        "{}".to_string(),
        Severity::Info,
        None,
        1,
    );
    o.id = 30;
    let s = finish_query(vec![o], 17);
    assert_eq!(s.checkpoint.0, 30);
    assert_eq!(s.summary.total, 1);
}

#[test]
fn runtime_summary_health() {
    let s = runtime_summary(4, 0, vec!["log".to_string()], vec![]);
    assert_eq!(s.observation_count, 4);
    assert!(matches!(s.health, HealthStatus::NoSources));
}

#[test]
fn vacuum_statement() {
    assert_eq!(incremental_vacuum_sql(200), "PRAGMA incremental_vacuum(200)");
}
