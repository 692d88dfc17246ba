//! The scope ledger: which project scopes agents connected to, which
//! connections failed, and which scopes the user chose to ignore. Repeat
//! records merge into what is stored.
use vstd::prelude::*;

use super::error_hash::{hex_bytes, spec_sha256};
use super::record_id::{keyed_bytes, ledger_key, part_bytes};
use crate::text::{decimal, push_decimal, push_str};

verus! {

/// A connection of an agent session to a scope.
#[derive(Debug, Clone)]
pub struct ScopeSessionRecord {
    pub id: Option<String>,
    pub session_id: String,
    pub provider: String,
    pub agent_name: String,
    pub mode: String,
    pub requested_path: String,
    pub scope_root: Option<String>,
    pub transcript_path: Option<String>,
    pub project_name: Option<String>,
    pub source_count: Option<u64>,
    pub connected_at: u64,
    pub last_seen_at: u64,
}

/// A scope seen recently.
#[derive(Debug, Clone)]
pub struct RecentScopeRecord {
    pub id: Option<String>,
    pub mode: String,
    pub requested_path: String,
    pub scope_root: String,
    pub provider: Option<String>,
    pub agent_name: Option<String>,
    pub session_id: Option<String>,
    pub project_name: Option<String>,
    pub source_count: Option<u64>,
    pub first_seen_at: u64,
    pub last_seen_at: u64,
}

/// A failed connection, counted per provider, path and code.
#[derive(Debug, Clone)]
pub struct ScopeConnectFailureRecord {
    pub id: Option<String>,
    pub session_id: String,
    pub provider: String,
    pub agent_name: Option<String>,
    pub requested_path: String,
    pub scope_root: Option<String>,
    pub transcript_path: Option<String>,
    pub mode: String,
    pub status: String,
    pub code: String,
    pub message: String,
    pub why: Option<String>,
    pub attempt_count: u64,
    pub first_seen_at: u64,
    pub last_seen_at: u64,
}

/// A scope the user asked not to be offered again.
#[derive(Debug, Clone)]
pub struct ScopeIgnoreRecord {
    pub id: Option<String>,
    pub scope_root: String,
    pub ignored_at: u64,
}

/// The newest recent scopes and failures.
#[derive(Debug, Clone)]
pub struct ScopeLedgerSummary {
    pub recent_scopes: Vec<RecentScopeRecord>,
    pub recent_failures: Vec<ScopeConnectFailureRecord>,
}

impl Default for ScopeLedgerSummary {
    fn default() -> (r: ScopeLedgerSummary)
        ensures
            r.recent_scopes@.len() == 0,
            r.recent_failures@.len() == 0,
    {
        ScopeLedgerSummary { recent_scopes: Vec::new(), recent_failures: Vec::new() }
    }
}

/// Failure records beyond this many, newest first, are pruned.
pub const MAX_FAILURE_RECORDS: usize = 200;

/// The session record to store: the stored record keeps its first
/// connection time, and the id is left to the key.
pub fn merge_connect_success(record: ScopeSessionRecord, existing_connected_at: Option<u64>) -> (r:
    ScopeSessionRecord)
    ensures
        r == (ScopeSessionRecord {
            id: None,
            connected_at: match existing_connected_at {
                Some(t) => t,
                None => record.connected_at,
            },
            ..record
        }),
{
    let mut record = record;
    if let Some(t) = existing_connected_at {
        record.connected_at = t;
    }
    record.id = None;
    record
}

/// The recent-scope record a successful connection with a scope root
/// gives: first seen when connected, with the session's provider, agent
/// and session.
pub fn recent_from_session(record: &ScopeSessionRecord) -> (r: Option<RecentScopeRecord>)
    ensures
        match record.scope_root {
            Some(root) => r matches Some(x) && x.id is None && x.mode == record.mode
                && x.requested_path == record.requested_path && x.scope_root == root
                && x.provider == Some(record.provider) && x.agent_name == Some(record.agent_name)
                && x.session_id == Some(record.session_id) && x.project_name == record.project_name
                && x.source_count == record.source_count && x.first_seen_at == record.connected_at
                && x.last_seen_at == record.last_seen_at,
            None => r is None,
        },
{
    match &record.scope_root {
        Some(root) => Some(
            RecentScopeRecord {
                id: None,
                mode: record.mode.clone(),
                requested_path: record.requested_path.clone(),
                scope_root: root.clone(),
                provider: Some(record.provider.clone()),
                agent_name: Some(record.agent_name.clone()),
                session_id: Some(record.session_id.clone()),
                project_name: crate::types::observation::dup_opt_string(&record.project_name),
                source_count: record.source_count,
                first_seen_at: record.connected_at,
                last_seen_at: record.last_seen_at,
            },
        ),
        None => None,
    }
}

/// The first of two optional values that is present.
pub open spec fn or_else<T>(a: Option<T>, b: Option<T>) -> Option<T> {
    match a {
        Some(x) => Some(x),
        None => b,
    }
}

/// The recent-scope record to store: the stored record keeps its first
/// sighting, and details the new record lacks are kept from it.
pub fn merge_recent_scope(record: RecentScopeRecord, existing: Option<RecentScopeRecord>) -> (r:
    RecentScopeRecord)
    ensures
        r == match existing {
            Some(e) => RecentScopeRecord {
                id: None,
                first_seen_at: e.first_seen_at,
                provider: or_else(record.provider, e.provider),
                agent_name: or_else(record.agent_name, e.agent_name),
                session_id: or_else(record.session_id, e.session_id),
                project_name: or_else(record.project_name, e.project_name),
                source_count: or_else(record.source_count, e.source_count),
                ..record
            },
            None => RecentScopeRecord { id: None, ..record },
        },
{
    let mut record = record;
    if let Some(e) = existing {
        record.first_seen_at = e.first_seen_at;
        if record.provider.is_none() {
            record.provider = e.provider;
        }
        if record.agent_name.is_none() {
            record.agent_name = e.agent_name;
        }
        if record.session_id.is_none() {
            record.session_id = e.session_id;
        }
        if record.project_name.is_none() {
            record.project_name = e.project_name;
        }
        if record.source_count.is_none() {
            record.source_count = e.source_count;
        }
    }
    record.id = None;
    record
}

/// The failure record to store: a repeat keeps the first sighting and
/// counts one more attempt (saturating).
pub fn merge_connect_failure(record: ScopeConnectFailureRecord, existing: Option<(u64, u64)>) -> (r:
    ScopeConnectFailureRecord)
    ensures
        r == match existing {
            Some((first_seen, attempts)) => ScopeConnectFailureRecord {
                id: None,
                first_seen_at: first_seen,
                attempt_count: if attempts == u64::MAX {
                    u64::MAX
                } else {
                    (attempts + 1) as u64
                },
                ..record
            },
            None => ScopeConnectFailureRecord { id: None, ..record },
        },
{
    let mut record = record;
    if let Some((first_seen, attempts)) = existing {
        record.first_seen_at = first_seen;
        record.attempt_count = attempts.saturating_add(1);
    }
    record.id = None;
    record
}

/// The request kept between 1 and 50.
pub open spec fn summary_limit_spec(limit: usize) -> usize {
    if limit < 1 {
        1
    } else if limit > 50 {
        50
    } else {
        limit
    }
}

/// Rows a summary lists of each table: the request kept between 1 and 50.
pub fn summary_limit(limit: usize) -> (r: usize)
    ensures
        r == summary_limit_spec(limit),
{
    if limit < 1 {
        1
    } else if limit > 50 {
        50
    } else {
        limit
    }
}

/// The key a session record is stored under.
pub fn session_key(session_id: &str) -> (r: String)
    ensures
        r@ == hex_bytes(spec_sha256(keyed_bytes(part_bytes(seq!["scope_session", session_id])))),
{
    let parts: [&str; 2] = ["scope_session", session_id];
    assert(parts@ =~= seq!["scope_session", session_id]);
    ledger_key(&parts)
}

/// The key a recent-scope record is stored under.
pub fn recent_scope_key(scope_root: &str) -> (r: String)
    ensures
        r@ == hex_bytes(spec_sha256(keyed_bytes(part_bytes(seq!["recent_scope", scope_root])))),
{
    let parts: [&str; 2] = ["recent_scope", scope_root];
    assert(parts@ =~= seq!["recent_scope", scope_root]);
    ledger_key(&parts)
}

/// The key a failure is counted under: provider, requested path and code.
pub fn failure_key(provider: &str, requested_path: &str, code: &str) -> (r: String)
    ensures
        r@ == hex_bytes(
            spec_sha256(
                keyed_bytes(
                    part_bytes(seq!["scope_connect_failure", provider, requested_path, code]),
                ),
            ),
        ),
{
    let parts: [&str; 4] = ["scope_connect_failure", provider, requested_path, code];
    assert(parts@ =~= seq!["scope_connect_failure", provider, requested_path, code]);
    ledger_key(&parts)
}

/// The key an ignored scope is stored under.
pub fn ignore_key(scope_root: &str) -> (r: String)
    ensures
        r@ == hex_bytes(spec_sha256(keyed_bytes(part_bytes(seq!["scope_ignore", scope_root])))),
{
    let parts: [&str; 2] = ["scope_ignore", scope_root];
    assert(parts@ =~= seq!["scope_ignore", scope_root]);
    ledger_key(&parts)
}

/// The two statements of a summary: the newest recent scopes, then the
/// newest failures, each at most `summary_limit(limit)`.
pub fn summary_statements(limit: usize) -> (r: String)
    ensures
        r@ == "SELECT * FROM recent_scope ORDER BY last_seen_at DESC LIMIT "@ + decimal(
            summary_limit_spec(limit) as nat,
        ) + "; SELECT * FROM scope_connect_failure ORDER BY last_seen_at DESC LIMIT "@ + decimal(
            summary_limit_spec(limit) as nat,
        ) + ";"@,
{
    let n = summary_limit(limit);
    let mut sql = "SELECT * FROM recent_scope ORDER BY last_seen_at DESC LIMIT ".to_owned();
    push_decimal(&mut sql, n as u64);
    push_str(&mut sql, "; SELECT * FROM scope_connect_failure ORDER BY last_seen_at DESC LIMIT ");
    push_decimal(&mut sql, n as u64);
    push_str(&mut sql, ";");
    sql
}

/// The failures beyond the newest `MAX_FAILURE_RECORDS`, which pruning
/// deletes.
pub fn prune_statement() -> (r: String)
    ensures
        r@ == "SELECT id, last_seen_at FROM scope_connect_failure ORDER BY last_seen_at DESC START "@
            + decimal(200),
{
    let mut sql = "SELECT id, last_seen_at FROM scope_connect_failure ORDER BY last_seen_at DESC START ".to_owned();
    push_decimal(&mut sql, MAX_FAILURE_RECORDS as u64);
    sql
}

} // verus!
