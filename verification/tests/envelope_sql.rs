use daemon8::store::envelope::{build_query_sql, EnvelopeFilter};
use daemon8::store::sql::BindValue;
use daemon8::types::envelope::{EnvelopeKind, EnvelopePriority, EnvelopeStatus};

fn show(binds: &[(String, BindValue)]) -> Vec<String> {
    binds
        .iter()
        .map(|(n, v)| match v {
            BindValue::Int(i) => format!("{n}={i}"),
            BindValue::Text(s) => format!("{n}='{s}'"),
            BindValue::TextList(l) => format!("{n}={l:?}"),
        })
        .collect()
}

#[test]
fn empty_envelope_filter_lists_all_by_creation() {
    let (sql, binds) = build_query_sql(&EnvelopeFilter::default());
    assert_eq!(sql, "SELECT * FROM envelope ORDER BY created_at ASC");
    assert!(binds.is_empty());
}

#[test]
fn envelope_filter_conditions_in_fixed_order() {
    let mut f = EnvelopeFilter::default();
    f.inbox_address = Some("inbox".to_string());
    f.to_address = Some("to".to_string());
    f.from_address = Some("from".to_string());
    f.statuses = Some(vec![EnvelopeStatus::Queued, EnvelopeStatus::Read]);
    f.kinds = Some(vec![EnvelopeKind::Request]);
    f.priorities = Some(vec![EnvelopePriority::Urgent]);
    f.tags = Some(vec!["a".to_string()]);
    f.project_refs = Some(vec!["p".to_string()]);
    f.team_refs = Some(vec!["t".to_string()]);
    f.correlation_id = Some("c".to_string());
    f.thread_id = Some("th".to_string());
    f.since_ns = Some(42);
    f.limit = Some(5);
    let (sql, binds) = build_query_sql(&f);
    assert_eq!(
        sql,
        "SELECT * FROM envelope WHERE inbox_address = $inbox_addr AND to_address = $to_addr AND from_address = $from_addr AND status IN $allowed_statuses AND kind IN $allowed_kinds AND priority IN $allowed_priorities AND tags CONTAINSALL $required_tags AND project_refs CONTAINSALL $required_projects AND team_refs CONTAINSALL $required_teams AND correlation_id = $corr_id AND thread_id = $thread_id_v AND created_at >= $since_ns ORDER BY created_at ASC LIMIT 5"
    );
    assert_eq!(
        show(&binds),
        vec![
            "inbox_addr='inbox'".to_string(),
            "to_addr='to'".to_string(),
            "from_addr='from'".to_string(),
            "allowed_statuses=[\"queued\", \"read\"]".to_string(),
            "allowed_kinds=[\"request\"]".to_string(),
            "allowed_priorities=[\"urgent\"]".to_string(),
            "required_tags=[\"a\"]".to_string(),
            "required_projects=[\"p\"]".to_string(),
            "required_teams=[\"t\"]".to_string(),
            "corr_id='c'".to_string(),
            "thread_id_v='th'".to_string(),
            "since_ns=42".to_string(),
        ]
    );
}

#[test]
fn empty_envelope_lists_are_ignored() {
    let mut f = EnvelopeFilter::default();
    f.statuses = Some(vec![]);
    f.tags = Some(vec![]);
    f.thread_id = Some("x".to_string());
    let (sql, binds) = build_query_sql(&f);
    assert_eq!(sql, "SELECT * FROM envelope WHERE thread_id = $thread_id_v ORDER BY created_at ASC");
    assert_eq!(binds.len(), 1);
}

#[test]
fn empty_lists_are_no_criterion() {
    let plain = EnvelopeFilter { since_ns: Some(5), ..EnvelopeFilter::default() };
    let with_empty = EnvelopeFilter {
        statuses: Some(vec![]),
        kinds: Some(vec![]),
        priorities: Some(vec![]),
        tags: Some(vec![]),
        project_refs: Some(vec![]),
        team_refs: Some(vec![]),
        since_ns: Some(5),
        ..EnvelopeFilter::default()
    };
    let (a, ab) = build_query_sql(&plain);
    let (b, bb) = build_query_sql(&with_empty);
    assert_eq!(a, b);
    assert_eq!(show(&ab), show(&bb));
}

#[test]
fn every_binding_is_used_by_its_condition() {
    let f = EnvelopeFilter {
        inbox_address: Some("a".into()),
        statuses: Some(vec![EnvelopeStatus::Queued]),
        tags: Some(vec!["t".into()]),
        thread_id: Some("th".into()),
        ..EnvelopeFilter::default()
    };
    let (sql, binds) = build_query_sql(&f);
    for (name, _) in &binds {
        assert!(sql.contains(&format!("${name}")), "{name}");
    }
    assert_eq!(sql.matches(" AND ").count() + 1, binds.len());
}
