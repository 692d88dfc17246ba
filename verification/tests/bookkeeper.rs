use daemon8::store::bookkeeper::{
    dedupe_select, plan_dedupe_long, sweep_count, sweep_deletions, sweep_now, sweep_report,
    sweep_select, DedupCandidate, DedupLongScope, SweepShortScope,
};
use daemon8::store::error::StoreError;
use daemon8::store::sql::BindValue;
use daemon8::types::memory::MemoryScope;

fn cand(id: &str, hash: &str, scope: MemoryScope, rank: u32, created_at: u64) -> DedupCandidate {
    DedupCandidate {
        id: Some(id.to_string()),
        content_hash: hash.to_string(),
        scope,
        confidence_rank: rank,
        created_at,
    }
}

#[test]
fn dedupe_long_empty_store_zero_report() {
    let report = plan_dedupe_long(&vec![], true).unwrap();
    assert_eq!(report.examined, 0);
    assert_eq!(report.groups, 0);
    assert_eq!(report.redundant, 0);
}

#[test]
fn dedupe_no_collisions_no_groups() {
    let c = vec![
        cand("a", "h1", MemoryScope::Project, 5, 1),
        cand("b", "h2", MemoryScope::Project, 5, 2),
        cand("c", "h3", MemoryScope::Project, 5, 3),
    ];
    let report = plan_dedupe_long(&c, true).unwrap();
    assert_eq!(report.examined, 3);
    assert_eq!(report.groups, 0);
    assert_eq!(report.redundant, 0);
    assert!(report.removed_ids.is_empty());
}

#[test]
fn dedupe_dry_run_reports_without_removing() {
    let c = vec![
        cand("a", "h", MemoryScope::Project, 5, 1),
        cand("b", "h", MemoryScope::Project, 5, 2),
        cand("c", "h", MemoryScope::Project, 5, 3),
    ];
    let report = plan_dedupe_long(&c, false).unwrap();
    assert_eq!(report.examined, 3);
    assert_eq!(report.groups, 1);
    assert_eq!(report.redundant, 2);
    assert!(report.removed_ids.is_empty());
}

#[test]
fn dedupe_keeps_highest_confidence_then_oldest() {
    let c = vec![
        cand("low_old", "h", MemoryScope::Project, 5, 100),
        cand("high_middle", "h", MemoryScope::Project, 9, 200),
        cand("high_late", "h", MemoryScope::Project, 9, 300),
    ];
    let report = plan_dedupe_long(&c, true).unwrap();
    assert_eq!(report.groups, 1);
    assert_eq!(report.redundant, 2);
    assert_eq!(report.removed_ids, vec!["low_old".to_string(), "high_late".to_string()]);
}

#[test]
fn dedupe_respects_scope_isolation() {
    let c = vec![
        cand("a1", "h", MemoryScope::Agent, 5, 1),
        cand("p1", "h", MemoryScope::Project, 5, 2),
        cand("p2", "h", MemoryScope::Project, 5, 3),
    ];
    let report = plan_dedupe_long(&c, true).unwrap();
    assert_eq!(report.groups, 1);
    assert_eq!(report.redundant, 1);
    assert_eq!(report.removed_ids, vec!["p2".to_string()]);
}

#[test]
fn dedupe_refuses_group_member_without_id() {
    let mut c = vec![
        cand("a", "h", MemoryScope::Project, 5, 1),
        cand("b", "h", MemoryScope::Project, 5, 2),
    ];
    c[1].id = None;
    match plan_dedupe_long(&c, true) {
        Err(StoreError::Db(m)) => assert_eq!(m, "dedupe_long: row missing id"),
        _ => panic!("expected a refusal"),
    }
    let mut lone = vec![cand("a", "h", MemoryScope::Project, 5, 1)];
    lone[0].id = None;
    assert!(plan_dedupe_long(&lone, true).is_ok());
}

#[test]
fn sweep_statements() {
    let mut scope = SweepShortScope::default();
    assert_eq!(sweep_now(&scope, 42), 42);
    let (sql, binds) = sweep_select(&scope, 42);
    assert_eq!(sql, "SELECT * FROM memory_short WHERE expires_at < $now ORDER BY created_at ASC");
    assert_eq!(binds.len(), 1);
    assert!(matches!(binds[0].1, BindValue::Int(42)));
    assert_eq!(sweep_count(&scope).0, "SELECT count() AS total FROM memory_short GROUP ALL");

    scope.agent_id = Some("bob".to_string());
    scope.now_ns = Some(7);
    assert_eq!(sweep_now(&scope, 42), 7);
    let (sql, binds) = sweep_select(&scope, 7);
    assert_eq!(
        sql,
        "SELECT * FROM memory_short WHERE expires_at < $now AND agent_id = $agent ORDER BY created_at ASC"
    );
    assert_eq!(binds[1].0, "agent");
    let (count, cb) = sweep_count(&scope);
    assert_eq!(count, "SELECT count() AS total FROM memory_short WHERE agent_id = $agent GROUP ALL");
    assert_eq!(cb.len(), 1);
}

#[test]
fn sweep_deletions_stop_at_missing_id() {
    let (ids, stopped) = sweep_deletions(&vec![Some("a".to_string()), Some("b".to_string())]);
    assert_eq!(ids, vec!["a".to_string(), "b".to_string()]);
    assert!(!stopped);
    let (ids, stopped) =
        sweep_deletions(&vec![Some("a".to_string()), None, Some("c".to_string())]);
    assert_eq!(ids, vec!["a".to_string()]);
    assert!(stopped);
}

#[test]
fn sweep_report_counts() {
    let r = sweep_report(Some(3), 2, vec!["x".to_string()]);
    assert_eq!(r.examined, 3);
    assert_eq!(r.expired, 2);
    assert_eq!(r.deleted_ids, vec!["x".to_string()]);
    assert_eq!(sweep_report(None, 0, vec![]).examined, 0);
}

#[test]
fn dedupe_select_statements() {
    let _ = DedupLongScope::default();
    assert_eq!(
        dedupe_select(None).0,
        "SELECT * FROM memory_long WHERE revoked_at IS NONE ORDER BY created_at ASC"
    );
    let (sql, binds) = dedupe_select(Some(MemoryScope::Project));
    assert_eq!(
        sql,
        "SELECT * FROM memory_long WHERE scope = $scope_v AND revoked_at IS NONE ORDER BY created_at ASC"
    );
    match &binds[0].1 {
        BindValue::Text(s) => assert_eq!(s, "project"),
        _ => panic!("expected text"),
    }
}
