use daemon8::store::catalog::{build_query_sql, indexed_version, relate_edge, LibrarianFilter};
use daemon8::store::sql::BindValue;

fn show(binds: &[(String, BindValue)]) -> Vec<String> {
    binds
        .iter()
        .map(|(n, v)| match v {
            BindValue::Int(i) => format!("{n}={i}"),
            BindValue::Text(s) => format!("{n}='{s}'"),
            BindValue::TextList(l) => format!("{n}={l:?}"),
        })
        .collect()
}

fn empty() -> LibrarianFilter {
    LibrarianFilter {
        include_deprecated: false,
        kinds: None,
        tags: None,
        project_slug: None,
        text_match: None,
        stale_before: None,
        parent_id: None,
        limit: None,
    }
}

#[test]
fn catalog_lookup_hides_deprecated_by_default() {
    let (sql, binds) = build_query_sql(&empty());
    assert_eq!(sql, "SELECT * FROM catalog_node WHERE deprecated_at IS NONE ORDER BY updated_at DESC");
    assert!(binds.is_empty());
    let mut all = empty();
    all.include_deprecated = true;
    assert_eq!(build_query_sql(&all).0, "SELECT * FROM catalog_node ORDER BY updated_at DESC");
}

#[test]
fn catalog_lookup_all_criteria() {
    let f = LibrarianFilter {
        include_deprecated: false,
        kinds: Some(vec!["doc".to_string()]),
        tags: Some(vec!["api".to_string()]),
        project_slug: Some("p1".to_string()),
        text_match: Some("API Docs".to_string()),
        stale_before: Some(1000),
        parent_id: Some("n1".to_string()),
        limit: Some(4),
    };
    let (sql, binds) = build_query_sql(&f);
    assert_eq!(
        sql,
        "SELECT * FROM catalog_node WHERE deprecated_at IS NONE AND kind IN $allowed_kinds AND tags CONTAINSALL $required_tags AND project_slug = $slug AND (string::contains(string::lowercase(label), $text_lower) OR string::contains(string::lowercase(locator), $text_lower)) AND (last_read_at IS NONE OR last_read_at < $stale_threshold) AND parent_id = $parent_id ORDER BY updated_at DESC LIMIT 4"
    );
    assert_eq!(
        show(&binds),
        vec![
            "allowed_kinds=[\"doc\"]".to_string(),
            "required_tags=[\"api\"]".to_string(),
            "slug='p1'".to_string(),
            "text_lower='api docs'".to_string(),
            "stale_threshold=1000".to_string(),
            "parent_id='n1'".to_string(),
        ]
    );
}

#[test]
fn reindexed_node_takes_next_version() {
    assert_eq!(indexed_version(Some(Some(3)), 1), 4);
    assert_eq!(indexed_version(Some(None), 7), 2);
    assert_eq!(indexed_version(None, 0), 1);
    assert_eq!(indexed_version(None, 5), 5);
}

#[test]
fn relate_edge_statement_and_time() {
    let (sql, at) = relate_edge("a", "b", 0, 99);
    assert_eq!(
        sql,
        "RELATE catalog_node:`a`->catalog_edge->catalog_node:`b` SET kind = $kind, created_at = $created_at"
    );
    assert_eq!(at, 99);
    assert_eq!(relate_edge("a", "b", 5, 99).1, 5);
}
