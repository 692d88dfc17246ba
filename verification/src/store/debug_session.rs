//! Debug sessions and their checkpoints: how ending a session updates its
//! stored row.
use vstd::prelude::*;

use super::sql::{binds_view, push_bind, BindValue, BindView};
use crate::text::{join, join_strings, push_str, views};
use crate::types::kinds::{DebugSessionOutcome, DebugSessionStatus};

verus! {

/// A bookmark within a debug session: the observation sequence at the
/// moment it was taken.
#[derive(Debug, Clone)]
pub struct DebugCheckpoint {
    pub id: Option<String>,
    pub debug_session_id: String,
    pub description: Option<String>,
    pub created_at: u64,
    pub seq_at_creation: u64,
}

/// Assignments of the end-of-session update: status and end time (also as
/// last activity), then the outcome and summary when given.
pub open spec fn end_assignments(has_outcome: bool, has_summary: bool) -> Seq<Seq<char>> {
    seq!["status = $status"@, "ended_at = $ended_at"@, "last_activity = $ended_at"@] + (if has_outcome {
        seq!["outcome = $outcome"@]
    } else {
        seq![]
    }) + (if has_summary {
        seq!["summary_memory_id = $summary"@]
    } else {
        seq![]
    })
}

/// Bindings of the end-of-session update.
pub open spec fn end_binds(
    id: Seq<char>,
    status: DebugSessionStatus,
    outcome: Option<DebugSessionOutcome>,
    summary: Option<Seq<char>>,
    ended_at: u64,
) -> Seq<(Seq<char>, BindView)> {
    seq![
        ("id"@, BindView::Text(id)),
        ("status"@, BindView::Text(status.spec_name())),
        ("ended_at"@, BindView::Int(ended_at)),
    ] + match outcome {
        Some(o) => seq![("outcome"@, BindView::Text(o.spec_name()))],
        None => seq![],
    } + match summary {
        Some(s) => seq![("summary"@, BindView::Text(s))],
        None => seq![],
    }
}

/// The update that ends a session; absent outcome and summary are left
/// untouched.
pub fn end_session_sql(
    id: &str,
    status: DebugSessionStatus,
    outcome: Option<DebugSessionOutcome>,
    summary_memory_id: Option<String>,
    ended_at: u64,
) -> (r: (String, Vec<(String, BindValue)>))
    ensures
        r.0@ == "UPDATE type::record('debug_session', $id) SET "@ + join(
            end_assignments(outcome is Some, summary_memory_id is Some),
            ", "@,
        ),
        binds_view(r.1@) == end_binds(
            id@,
            status,
            outcome,
            match summary_memory_id {
                Some(s) => Some(s@),
                None => None,
            },
            ended_at,
        ),
{
    let mut sets: Vec<String> = Vec::new();
    sets.push("status = $status".to_owned());
    sets.push("ended_at = $ended_at".to_owned());
    sets.push("last_activity = $ended_at".to_owned());
    if outcome.is_some() {
        sets.push("outcome = $outcome".to_owned());
    }
    if summary_memory_id.is_some() {
        sets.push("summary_memory_id = $summary".to_owned());
    }
    assert(views(sets@) =~= end_assignments(outcome is Some, summary_memory_id is Some));
    let mut sql = "UPDATE type::record('debug_session', $id) SET ".to_owned();
    let joined = join_strings(&sets, ", ");
    push_str(&mut sql, joined.as_str());
    let mut binds: Vec<(String, BindValue)> = Vec::new();
    push_bind(&mut binds, "id", BindValue::Text(id.to_owned()));
    push_bind(&mut binds, "status", BindValue::Text(status.to_string()));
    push_bind(&mut binds, "ended_at", BindValue::Int(ended_at));
    let ghost b3 = binds_view(binds@);
    if let Some(o) = outcome {
        push_bind(&mut binds, "outcome", BindValue::Text(o.to_string()));
    }
    let ghost b4 = binds_view(binds@);
    assert(b4 =~= b3 + match outcome {
        Some(o) => seq![("outcome"@, BindView::Text(o.spec_name()))],
        None => seq![],
    });
    if let Some(s) = summary_memory_id {
        push_bind(&mut binds, "summary", BindValue::Text(s));
    }
    (sql, binds)
}

/// The statement and bindings that list debug sessions, newest first,
/// only those in `status` when one is given.
pub fn list_sessions_sql(status: Option<DebugSessionStatus>) -> (r: (
    String,
    Vec<(String, BindValue)>,
))
    ensures
        r.0@ == match status {
            Some(_) => "SELECT * FROM debug_session WHERE status = $status ORDER BY started_at DESC"@,
            None => "SELECT * FROM debug_session ORDER BY started_at DESC"@,
        },
        binds_view(r.1@) == match status {
            Some(s) => seq![("status"@, BindView::Text(s.spec_name()))],
            None => seq![],
        },
{
    let mut binds: Vec<(String, BindValue)> = Vec::new();
    match status {
        Some(s) => {
            push_bind(&mut binds, "status", BindValue::Text(s.to_string()));
            (
                "SELECT * FROM debug_session WHERE status = $status ORDER BY started_at DESC".to_owned(),
                binds,
            )
        },
        None => {
            assert(binds_view(binds@) =~= seq![]);
            ("SELECT * FROM debug_session ORDER BY started_at DESC".to_owned(), binds)
        },
    }
}

} // verus!
