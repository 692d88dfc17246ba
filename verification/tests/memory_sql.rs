use daemon8::store::memory_sql::{
    build_long_query_sql, build_memory_query_sql, build_reference_query_sql,
    build_short_query_sql, MemoryFilter, MemoryLongFilter, MemoryReferenceFilter,
    MemoryShortFilter,
};
use daemon8::store::sql::BindValue;
use daemon8::types::memory::{LongContentKind, MemoryScope, ReferenceSourceKind, ShortContentKind};
use daemon8::types::MemoryKind;

fn show(binds: &[(String, BindValue)]) -> Vec<String> {
    binds
        .iter()
        .map(|(n, v)| match v {
            BindValue::Int(i) => format!("{n}={i}"),
            BindValue::Text(s) => format!("{n}='{s}'"),
            BindValue::TextList(l) => format!("{n}={l:?}"),
        })
        .collect()
}

fn short_filter() -> MemoryShortFilter {
    MemoryShortFilter {
        agent_id: None,
        thread_id: None,
        scope: None,
        content_kinds: None,
        tags_any: None,
        embedding_profile_id: None,
        include_expired: false,
        now_ns: None,
        limit: None,
    }
}

#[test]
fn short_query_excludes_expired_at_clock() {
    let (sql, binds) = build_short_query_sql(&short_filter(), 777);
    assert_eq!(sql, "SELECT * FROM memory_short WHERE expires_at > $now_ns ORDER BY created_at ASC");
    assert_eq!(show(&binds), vec!["now_ns=777".to_string()]);
}

#[test]
fn short_query_all_criteria() {
    let mut f = short_filter();
    f.agent_id = Some("ag".to_string());
    f.thread_id = Some("th".to_string());
    f.scope = Some(MemoryScope::Team);
    f.content_kinds = Some(vec![ShortContentKind::Fact, ShortContentKind::Scratch]);
    f.tags_any = Some(vec!["x".to_string()]);
    f.embedding_profile_id = Some("ep".to_string());
    f.now_ns = Some(5);
    f.limit = Some(9);
    let (sql, binds) = build_short_query_sql(&f, 777);
    assert_eq!(
        sql,
        "SELECT * FROM memory_short WHERE agent_id = $agent_id AND thread_id = $thread_id_v AND scope = $scope_v AND content_kind IN $allowed_kinds AND tags ANYINSIDE $any_tags AND embedding_profile_id = $emb_pid AND expires_at > $now_ns ORDER BY created_at ASC LIMIT 9"
    );
    assert_eq!(
        show(&binds),
        vec![
            "agent_id='ag'".to_string(),
            "thread_id_v='th'".to_string(),
            "scope_v='team'".to_string(),
            "allowed_kinds=[\"fact\", \"scratch\"]".to_string(),
            "any_tags=[\"x\"]".to_string(),
            "emb_pid='ep'".to_string(),
            "now_ns=5".to_string(),
        ]
    );
}

#[test]
fn short_query_including_expired_has_no_conditions() {
    let mut f = short_filter();
    f.include_expired = true;
    let (sql, binds) = build_short_query_sql(&f, 1);
    assert_eq!(sql, "SELECT * FROM memory_short ORDER BY created_at ASC");
    assert!(binds.is_empty());
}

#[test]
fn long_query_hides_revoked() {
    let f = MemoryLongFilter {
        scope: Some(MemoryScope::Global),
        content_kinds: Some(vec![LongContentKind::Decision]),
        tags_any: Some(vec![]),
        include_revoked: false,
        limit: Some(2),
    };
    let (sql, binds) = build_long_query_sql(&f);
    assert_eq!(
        sql,
        "SELECT * FROM memory_long WHERE scope = $scope_v AND content_kind IN $allowed_kinds AND revoked_at IS NONE ORDER BY created_at ASC LIMIT 2"
    );
    assert_eq!(
        show(&binds),
        vec!["scope_v='global'".to_string(), "allowed_kinds=[\"decision\"]".to_string()]
    );
    let all = MemoryLongFilter {
        scope: None,
        content_kinds: None,
        tags_any: None,
        include_revoked: true,
        limit: None,
    };
    assert_eq!(build_long_query_sql(&all).0, "SELECT * FROM memory_long ORDER BY created_at ASC");
}

#[test]
fn reference_query_criteria() {
    let f = MemoryReferenceFilter {
        source_kinds: Some(vec![ReferenceSourceKind::Rfc, ReferenceSourceKind::Doc]),
        scope: Some(MemoryScope::Project),
        tags_any: Some(vec!["a".to_string(), "b".to_string()]),
        embedding_profile_id: Some("p1".to_string()),
        limit: None,
    };
    let (sql, binds) = build_reference_query_sql(&f);
    assert_eq!(
        sql,
        "SELECT * FROM memory_reference WHERE source_kind IN $allowed_kinds AND scope = $scope_v AND tags ANYINSIDE $any_tags AND embedding_profile_id = $emb_pid ORDER BY created_at ASC"
    );
    assert_eq!(
        show(&binds),
        vec![
            "allowed_kinds=[\"rfc\", \"doc\"]".to_string(),
            "scope_v='project'".to_string(),
            "any_tags=[\"a\", \"b\"]".to_string(),
            "emb_pid='p1'".to_string(),
        ]
    );
}

#[test]
fn memory_query_newest_first_with_lowercased_text() {
    let f = MemoryFilter {
        kinds: Some(vec![MemoryKind::ErrorSignature]),
        tags: Some(vec!["hash:1".to_string()]),
        project_slug: Some("daemon8".to_string()),
        session_id: Some("s".to_string()),
        text_match: Some("Disk FULL".to_string()),
        limit: Some(1),
    };
    let (sql, binds) = build_memory_query_sql(&f);
    assert_eq!(
        sql,
        "SELECT * FROM memory WHERE kind IN $allowed_kinds AND tags CONTAINSALL $required_tags AND project_slug = $slug AND session_id = $sid AND string::contains(string::lowercase(content), $text_lower) ORDER BY created_at DESC LIMIT 1"
    );
    assert_eq!(
        show(&binds),
        vec![
            "allowed_kinds=[\"error_signature\"]".to_string(),
            "required_tags=[\"hash:1\"]".to_string(),
            "slug='daemon8'".to_string(),
            "sid='s'".to_string(),
            "text_lower='disk full'".to_string(),
        ]
    );
    let empty = MemoryFilter {
        kinds: None,
        tags: None,
        project_slug: None,
        session_id: None,
        text_match: None,
        limit: None,
    };
    assert_eq!(build_memory_query_sql(&empty).0, "SELECT * FROM memory ORDER BY created_at DESC");
}
