use daemon8::store::sql::BindValue;
use daemon8::store::surreal::{build_query_sql, export_page_query};
use daemon8::types::{
    AppName, Checkpoint, Filter, ObservationKindTag, OriginPattern, Severity, TabId,
};

fn show(binds: &[(String, BindValue)]) -> Vec<String> {
    binds
        .iter()
        .map(|(n, v)| match v {
            BindValue::Int(i) => format!("{n}={i}"),
            BindValue::Text(s) => format!("{n}='{s}'"),
            BindValue::TextList(l) => format!("{n}={l:?}"),
        })
        .collect()
}

#[test]
fn default_filter_hides_system_observations() {
    let (sql, binds) = build_query_sql(&Filter::default());
    assert_eq!(
        sql,
        "SELECT * FROM observation WHERE (tags IS NONE OR tags CONTAINSNOT '_system') ORDER BY seq DESC"
    );
    assert!(binds.is_empty());
}

#[test]
fn include_system_drops_the_tag_condition() {
    let mut f = Filter::default();
    f.include_system = Some(true);
    let (sql, binds) = build_query_sql(&f);
    assert_eq!(sql, "SELECT * FROM observation ORDER BY seq DESC");
    assert!(binds.is_empty());
}

#[test]
fn every_criterion_becomes_a_condition_and_bind() {
    let mut f = Filter::default();
    f.include_system = Some(true);
    f.since = Some(Checkpoint(5));
    f.severity_min = Some(Severity::Error);
    f.kinds = Some(vec![ObservationKindTag::Log]);
    f.correlation_id = Some("c".to_string());
    f.tags = Some(vec!["t".to_string()]);
    f.origins = Some(vec![
        OriginPattern::ApplicationNamed(AppName::new("web")),
        OriginPattern::AnyDevice,
        OriginPattern::BrowserTab(TabId::new("t1")),
    ]);
    f.text_match = Some("BooM".to_string());
    f.limit = Some(3);
    let (sql, binds) = build_query_sql(&f);
    assert_eq!(
        sql,
        "SELECT * FROM observation WHERE seq > $since_seq AND severity IN $allowed_severities AND kind_tag IN $allowed_kinds AND correlation_id = $corr_id AND tags CONTAINSALL $required_tags AND ((origin.type = 'application' AND origin.name = $origin_name_0) OR origin.type = 'device' OR (origin.type = 'browser' AND origin.tab_id = $origin_tab_2)) AND string::contains(string::lowercase(<string> data), $text_lower) ORDER BY seq DESC LIMIT 3"
    );
    assert_eq!(
        show(&binds),
        vec![
            "since_seq=5".to_string(),
            "allowed_severities=[\"error\"]".to_string(),
            "allowed_kinds=[\"log\"]".to_string(),
            "corr_id='c'".to_string(),
            "required_tags=[\"t\"]".to_string(),
            "origin_name_0='web'".to_string(),
            "origin_tab_2='t1'".to_string(),
            "text_lower='boom'".to_string(),
        ]
    );
}

#[test]
fn empty_lists_add_no_condition() {
    let mut f = Filter::default();
    f.include_system = Some(true);
    f.kinds = Some(vec![]);
    f.tags = Some(vec![]);
    f.origins = Some(vec![]);
    f.severity_min = Some(Severity::Warn);
    let (sql, binds) = build_query_sql(&f);
    assert_eq!(
        sql,
        "SELECT * FROM observation WHERE severity IN $allowed_severities ORDER BY seq DESC"
    );
    assert_eq!(show(&binds), vec!["allowed_severities=[\"warn\", \"error\"]".to_string()]);
}

#[test]
fn export_page_query_trims_and_appends_page_bounds() {
    assert_eq!(
        export_page_query("  SELECT * FROM memory ORDER BY created_at \n"),
        "SELECT * FROM memory ORDER BY created_at LIMIT $limit START $start"
    );
    assert_eq!(export_page_query(""), " LIMIT $limit START $start");
}
