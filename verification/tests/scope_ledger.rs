use daemon8::store::card::{agent_query_sql, unknown_agent, AgentCardFilter};
use daemon8::store::debug_session::list_sessions_sql;
use daemon8::store::error::StoreError;
use daemon8::store::record_id::ledger_key;
use daemon8::store::scope_ledger::{
    failure_key, ignore_key, prune_statement, recent_scope_key, session_key, summary_statements,
};
use daemon8::store::debug_session::end_session_sql;
use daemon8::store::scope_ledger::{
    merge_connect_failure, merge_connect_success, merge_recent_scope, recent_from_session,
    summary_limit, RecentScopeRecord, ScopeConnectFailureRecord, ScopeLedgerSummary,
    ScopeSessionRecord, MAX_FAILURE_RECORDS,
};
use daemon8::store::sql::BindValue;
use daemon8::types::{DebugSessionOutcome, DebugSessionStatus};

fn session(scope_root: Option<&str>) -> ScopeSessionRecord {
    ScopeSessionRecord {
        id: Some("x".to_string()),
        session_id: "s1".to_string(),
        provider: "codex".to_string(),
        agent_name: "agent".to_string(),
        mode: "connect".to_string(),
        requested_path: "/p".to_string(),
        scope_root: scope_root.map(String::from),
        transcript_path: None,
        project_name: Some("proj".to_string()),
        source_count: Some(3),
        connected_at: 100,
        last_seen_at: 200,
    }
}

fn failure() -> ScopeConnectFailureRecord {
    ScopeConnectFailureRecord {
        id: Some("f".to_string()),
        session_id: "s".to_string(),
        provider: "p".to_string(),
        agent_name: None,
        requested_path: "/r".to_string(),
        scope_root: None,
        transcript_path: None,
        mode: "connect".to_string(),
        status: "error".to_string(),
        code: "E1".to_string(),
        message: "m".to_string(),
        why: None,
        attempt_count: 1,
        first_seen_at: 50,
        last_seen_at: 60,
    }
}

#[test]
fn connect_success_keeps_first_connection_time() {
    let r = merge_connect_success(session(Some("/p")), Some(10));
    assert_eq!(r.connected_at, 10);
    assert!(r.id.is_none());
    assert_eq!(merge_connect_success(session(None), None).connected_at, 100);
}

#[test]
fn recent_scope_from_session() {
    assert!(recent_from_session(&session(None)).is_none());
    let r = recent_from_session(&session(Some("/root"))).unwrap();
    assert_eq!(r.scope_root, "/root");
    assert_eq!(r.provider.as_deref(), Some("codex"));
    assert_eq!(r.first_seen_at, 100);
    assert_eq!(r.last_seen_at, 200);
}

#[test]
fn recent_scope_merge_fills_missing_details() {
    let mut fresh: RecentScopeRecord = recent_from_session(&session(Some("/root"))).unwrap();
    fresh.provider = None;
    fresh.source_count = None;
    fresh.first_seen_at = 500;
    let mut stored = recent_from_session(&session(Some("/root"))).unwrap();
    stored.provider = Some("old".to_string());
    stored.source_count = Some(9);
    stored.first_seen_at = 1;
    let merged = merge_recent_scope(fresh, Some(stored));
    assert_eq!(merged.first_seen_at, 1);
    assert_eq!(merged.provider.as_deref(), Some("old"));
    assert_eq!(merged.source_count, Some(9));
    assert_eq!(merged.agent_name.as_deref(), Some("agent"));
    assert!(merged.id.is_none());
}

#[test]
fn failure_merge_counts_attempts() {
    let r = merge_connect_failure(failure(), Some((5, 2)));
    assert_eq!(r.first_seen_at, 5);
    assert_eq!(r.attempt_count, 3);
    assert!(r.id.is_none());
    assert_eq!(merge_connect_failure(failure(), Some((5, u64::MAX))).attempt_count, u64::MAX);
    let fresh = merge_connect_failure(failure(), None);
    assert_eq!(fresh.attempt_count, 1);
    assert_eq!(fresh.first_seen_at, 50);
}

#[test]
fn summary_limits_are_clamped() {
    assert_eq!(summary_limit(0), 1);
    assert_eq!(summary_limit(7), 7);
    assert_eq!(summary_limit(500), 50);
    assert_eq!(MAX_FAILURE_RECORDS, 200);
    let s = ScopeLedgerSummary::default();
    assert!(s.recent_scopes.is_empty() && s.recent_failures.is_empty());
}

#[test]
fn end_session_update() {
    let (sql, binds) = end_session_sql("ds_1", DebugSessionStatus::Completed, None, None, 9);
    assert_eq!(
        sql,
        "UPDATE type::record('debug_session', $id) SET status = $status, ended_at = $ended_at, last_activity = $ended_at"
    );
    assert_eq!(binds.len(), 3);
    let (sql, binds) = end_session_sql(
        "ds_1",
        DebugSessionStatus::Completed,
        Some(DebugSessionOutcome::Resolved),
        Some("mem_1".to_string()),
        9,
    );
    assert_eq!(
        sql,
        "UPDATE type::record('debug_session', $id) SET status = $status, ended_at = $ended_at, last_activity = $ended_at, outcome = $outcome, summary_memory_id = $summary"
    );
    let names: Vec<&str> = binds.iter().map(|(n, _)| n.as_str()).collect();
    assert_eq!(names, vec!["id", "status", "ended_at", "outcome", "summary"]);
    match &binds[4].1 {
        BindValue::Text(s) => assert_eq!(s, "mem_1"),
        _ => panic!("expected text"),
    }
}

#[test]
fn ledger_keys_and_statements() {
    assert_eq!(session_key("s1"), ledger_key(&["scope_session", "s1"]));
    assert_eq!(recent_scope_key("/r"), ledger_key(&["recent_scope", "/r"]));
    assert_eq!(ignore_key("/r"), ledger_key(&["scope_ignore", "/r"]));
    assert_eq!(failure_key("p", "/r", "E1"), ledger_key(&["scope_connect_failure", "p", "/r", "E1"]));
    assert_ne!(session_key("s1"), session_key("s2"));
    assert_eq!(
        summary_statements(0),
        "SELECT * FROM recent_scope ORDER BY last_seen_at DESC LIMIT 1; SELECT * FROM scope_connect_failure ORDER BY last_seen_at DESC LIMIT 1;"
    );
    assert_eq!(
        summary_statements(20),
        "SELECT * FROM recent_scope ORDER BY last_seen_at DESC LIMIT 20; SELECT * FROM scope_connect_failure ORDER BY last_seen_at DESC LIMIT 20;"
    );
    assert_eq!(
        prune_statement(),
        "SELECT id, last_seen_at FROM scope_connect_failure ORDER BY last_seen_at DESC START 200"
    );
}

#[test]
fn debug_session_listing() {
    let (sql, binds) = list_sessions_sql(Some(DebugSessionStatus::Active));
    assert_eq!(sql, "SELECT * FROM debug_session WHERE status = $status ORDER BY started_at DESC");
    match &binds[0].1 {
        BindValue::Text(s) => assert_eq!(s, "active"),
        _ => panic!("expected text"),
    }
    let (sql, binds) = list_sessions_sql(None);
    assert_eq!(sql, "SELECT * FROM debug_session ORDER BY started_at DESC");
    assert!(binds.is_empty());
}

#[test]
fn agent_card_listing() {
    let f = AgentCardFilter {
        statuses: Some(vec!["alive".to_string()]),
        project_ref: Some("p".to_string()),
        team_ref: None,
        limit: Some(2),
    };
    let (sql, binds) = agent_query_sql(&f);
    assert_eq!(
        sql,
        "SELECT * FROM agent_card WHERE status IN $statuses AND project_refs CONTAINS $project_ref ORDER BY created_at ASC LIMIT 2"
    );
    assert_eq!(binds.len(), 2);
    let empty = AgentCardFilter { statuses: Some(vec![]), project_ref: None, team_ref: None, limit: None };
    assert_eq!(agent_query_sql(&empty).0, "SELECT * FROM agent_card ORDER BY created_at ASC");
    match unknown_agent("a1") {
        StoreError::Other(m) => assert_eq!(m, "agent card 'a1' does not exist"),
        _ => panic!("expected other"),
    }
}
