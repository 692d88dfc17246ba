//! The query that the envelope table answers an `EnvelopeFilter` with.
use vstd::prelude::*;

use super::sql::{
    binds_view, dup_strings, listed, opt_bind, opt_cond, push_bind, push_cond, push_list_criterion,
    push_text_criterion, push_where, text_of, texts_of, where_clause, BindValue, BindView,
};
use crate::text::{contains, decimal, join, occurs_at, push_decimal, push_str, views};
use crate::types::envelope::{EnvelopeKind, EnvelopePriority, EnvelopeStatus};
use super::error::StoreError;

verus! {

/// Criteria over stored envelopes; every present criterion must hold, and
/// empty lists are ignored.
#[derive(Debug, Clone)]
pub struct EnvelopeFilter {
    pub inbox_address: Option<String>,
    pub to_address: Option<String>,
    pub from_address: Option<String>,
    pub statuses: Option<Vec<EnvelopeStatus>>,
    pub kinds: Option<Vec<EnvelopeKind>>,
    pub priorities: Option<Vec<EnvelopePriority>>,
    pub tags: Option<Vec<String>>,
    pub project_refs: Option<Vec<String>>,
    pub team_refs: Option<Vec<String>>,
    pub correlation_id: Option<String>,
    pub thread_id: Option<String>,
    pub since_ns: Option<u64>,
    pub limit: Option<usize>,
}

impl Default for EnvelopeFilter {
    fn default() -> (r: EnvelopeFilter)
        ensures
            r.inbox_address is None && r.to_address is None && r.from_address is None
                && r.statuses is None && r.kinds is None && r.priorities is None && r.tags is None
                && r.project_refs is None && r.team_refs is None && r.correlation_id is None
                && r.thread_id is None && r.since_ns is None && r.limit is None,
    {
        EnvelopeFilter {
            inbox_address: None,
            to_address: None,
            from_address: None,
            statuses: None,
            kinds: None,
            priorities: None,
            tags: None,
            project_refs: None,
            team_refs: None,
            correlation_id: None,
            thread_id: None,
            since_ns: None,
            limit: None,
        }
    }
}

/// Names of the statuses of a filter.
pub open spec fn status_names(f: EnvelopeFilter) -> Seq<Seq<char>> {
    match f.statuses {
        Some(v) => v@.map_values(|s: EnvelopeStatus| s.spec_name()),
        None => seq![],
    }
}

/// Names of the kinds of a filter.
pub open spec fn kind_names(f: EnvelopeFilter) -> Seq<Seq<char>> {
    match f.kinds {
        Some(v) => v@.map_values(|k: EnvelopeKind| k.spec_name()),
        None => seq![],
    }
}

/// Names of the priorities of a filter.
pub open spec fn priority_names(f: EnvelopeFilter) -> Seq<Seq<char>> {
    match f.priorities {
        Some(v) => v@.map_values(|p: EnvelopePriority| p.spec_name()),
        None => seq![],
    }
}

/// Addresses and allow-lists.
pub open spec fn head_conditions(f: EnvelopeFilter) -> Seq<Seq<char>> {
    opt_cond(f.inbox_address is Some, "inbox_address = $inbox_addr"@) + opt_cond(
        f.to_address is Some,
        "to_address = $to_addr"@,
    ) + opt_cond(f.from_address is Some, "from_address = $from_addr"@) + opt_cond(
        listed(f.statuses),
        "status IN $allowed_statuses"@,
    ) + opt_cond(listed(f.kinds), "kind IN $allowed_kinds"@) + opt_cond(
        listed(f.priorities),
        "priority IN $allowed_priorities"@,
    )
}

/// Required tags, project and team references.
pub open spec fn list_conditions(f: EnvelopeFilter) -> Seq<Seq<char>> {
    opt_cond(listed(f.tags), "tags CONTAINSALL $required_tags"@) + opt_cond(
        listed(f.project_refs),
        "project_refs CONTAINSALL $required_projects"@,
    ) + opt_cond(listed(f.team_refs), "team_refs CONTAINSALL $required_teams"@)
}

/// Correlation id, thread and creation time.
pub open spec fn scalar_conditions(f: EnvelopeFilter) -> Seq<Seq<char>> {
    opt_cond(f.correlation_id is Some, "correlation_id = $corr_id"@) + opt_cond(
        f.thread_id is Some,
        "thread_id = $thread_id_v"@,
    ) + opt_cond(f.since_ns is Some, "created_at >= $since_ns"@)
}

/// Bindings of the address and allow-list conditions.
pub open spec fn head_binds(f: EnvelopeFilter) -> Seq<(Seq<char>, BindView)> {
    opt_bind(f.inbox_address is Some, "inbox_addr"@, BindView::Text(text_of(f.inbox_address)))
        + opt_bind(f.to_address is Some, "to_addr"@, BindView::Text(text_of(f.to_address)))
        + opt_bind(f.from_address is Some, "from_addr"@, BindView::Text(text_of(f.from_address)))
        + opt_bind(listed(f.statuses), "allowed_statuses"@, BindView::TextList(status_names(f)))
        + opt_bind(listed(f.kinds), "allowed_kinds"@, BindView::TextList(kind_names(f)))
        + opt_bind(
        listed(f.priorities),
        "allowed_priorities"@,
        BindView::TextList(priority_names(f)),
    )
}

/// Bindings of the list conditions.
pub open spec fn list_binds(f: EnvelopeFilter) -> Seq<(Seq<char>, BindView)> {
    opt_bind(listed(f.tags), "required_tags"@, BindView::TextList(texts_of(f.tags))) + opt_bind(
        listed(f.project_refs),
        "required_projects"@,
        BindView::TextList(texts_of(f.project_refs)),
    ) + opt_bind(
        listed(f.team_refs),
        "required_teams"@,
        BindView::TextList(texts_of(f.team_refs)),
    )
}

/// Bindings of the correlation, thread and time conditions.
pub open spec fn scalar_binds(f: EnvelopeFilter) -> Seq<(Seq<char>, BindView)> {
    opt_bind(f.correlation_id is Some, "corr_id"@, BindView::Text(text_of(f.correlation_id)))
        + opt_bind(f.thread_id is Some, "thread_id_v"@, BindView::Text(text_of(f.thread_id)))
        + opt_bind(
        f.since_ns is Some,
        "since_ns"@,
        BindView::Int(
            match f.since_ns {
                Some(n) => n,
                None => 0,
            },
        ),
    )
}

/// The statement for `f`: matching envelopes, oldest first, at most
/// `limit` of them.
pub open spec fn envelope_query_sql(f: EnvelopeFilter) -> Seq<char> {
    "SELECT * FROM envelope"@ + where_clause(
        " "@,
        head_conditions(f) + list_conditions(f) + scalar_conditions(f),
    )
        + " ORDER BY created_at ASC"@ + match f.limit {
        Some(n) => " LIMIT "@ + decimal(n as nat),
        None => seq![],
    }
}

/// Names of a list of statuses.
fn status_name_list(v: &Vec<EnvelopeStatus>) -> (r: Vec<String>)
    ensures
        views(r@) == v@.map_values(|s: EnvelopeStatus| s.spec_name()),
{
    let mut r: Vec<String> = Vec::new();
    let mut i: usize = 0;
    while i < v.len()
        invariant
            i <= v.len(),
            views(r@) == v@.take(i as int).map_values(|s: EnvelopeStatus| s.spec_name()),
        decreases v.len() - i,
    {
        let ghost before = r@;
        let x = v[i].to_string();
        r.push(x);
        proof {
            assert(views(r@) =~= views(before).push(x@));
            assert(v@.take(i + 1).map_values(|s: EnvelopeStatus| s.spec_name()) =~= v@.take(
                i as int,
            ).map_values(|s: EnvelopeStatus| s.spec_name()).push(v@[i as int].spec_name()));
        }
        i += 1;
    }
    proof {
        assert(v@.take(v@.len() as int) =~= v@);
    }
    r
}

/// Names of a list of kinds.
fn kind_name_list(v: &Vec<EnvelopeKind>) -> (r: Vec<String>)
    ensures
        views(r@) == v@.map_values(|k: EnvelopeKind| k.spec_name()),
{
    let mut r: Vec<String> = Vec::new();
    let mut i: usize = 0;
    while i < v.len()
        invariant
            i <= v.len(),
            views(r@) == v@.take(i as int).map_values(|k: EnvelopeKind| k.spec_name()),
        decreases v.len() - i,
    {
        let ghost before = r@;
        let x = v[i].to_string();
        r.push(x);
        proof {
            assert(views(r@) =~= views(before).push(x@));
            assert(v@.take(i + 1).map_values(|k: EnvelopeKind| k.spec_name()) =~= v@.take(
                i as int,
            ).map_values(|k: EnvelopeKind| k.spec_name()).push(v@[i as int].spec_name()));
        }
        i += 1;
    }
    proof {
        assert(v@.take(v@.len() as int) =~= v@);
    }
    r
}

/// Names of a list of priorities.
fn priority_name_list(v: &Vec<EnvelopePriority>) -> (r: Vec<String>)
    ensures
        views(r@) == v@.map_values(|p: EnvelopePriority| p.spec_name()),
{
    let mut r: Vec<String> = Vec::new();
    let mut i: usize = 0;
    while i < v.len()
        invariant
            i <= v.len(),
            views(r@) == v@.take(i as int).map_values(|p: EnvelopePriority| p.spec_name()),
        decreases v.len() - i,
    {
        let ghost before = r@;
        let x = v[i].to_string();
        r.push(x);
        proof {
            assert(views(r@) =~= views(before).push(x@));
            assert(v@.take(i + 1).map_values(|p: EnvelopePriority| p.spec_name()) =~= v@.take(
                i as int,
            ).map_values(|p: EnvelopePriority| p.spec_name()).push(v@[i as int].spec_name()));
        }
        i += 1;
    }
    proof {
        assert(v@.take(v@.len() as int) =~= v@);
    }
    r
}

/// Appends the address and allow-list conditions.
fn push_head(filter: &EnvelopeFilter, conds: &mut Vec<String>, binds: &mut Vec<(String, BindValue)>)
    requires
        old(conds)@.len() == 0,
        old(binds)@.len() == 0,
    ensures
        views(final(conds)@) == head_conditions(*filter),
        binds_view(final(binds)@) == head_binds(*filter),
{
    let ghost f = *filter;
    assert(views(conds@) =~= seq![]);
    assert(binds_view(binds@) =~= seq![]);
    push_text_criterion(&filter.inbox_address, "inbox_address = $inbox_addr", "inbox_addr", conds, binds);
    push_text_criterion(&filter.to_address, "to_address = $to_addr", "to_addr", conds, binds);
    push_text_criterion(&filter.from_address, "from_address = $from_addr", "from_addr", conds, binds);
    let ghost c3 = views(conds@);
    let ghost b3 = binds_view(binds@);
    if let Some(v) = &filter.statuses {
        if v.len() > 0 {
            push_cond(conds, "status IN $allowed_statuses");
            push_bind(binds, "allowed_statuses", BindValue::TextList(status_name_list(v)));
        }
    }
    assert(views(conds@) =~= c3 + opt_cond(listed(f.statuses), "status IN $allowed_statuses"@));
    assert(binds_view(binds@) =~= b3 + opt_bind(
        listed(f.statuses),
        "allowed_statuses"@,
        BindView::TextList(status_names(f)),
    ));
    let ghost c4 = views(conds@);
    let ghost b4 = binds_view(binds@);
    if let Some(v) = &filter.kinds {
        if v.len() > 0 {
            push_cond(conds, "kind IN $allowed_kinds");
            push_bind(binds, "allowed_kinds", BindValue::TextList(kind_name_list(v)));
        }
    }
    assert(views(conds@) =~= c4 + opt_cond(listed(f.kinds), "kind IN $allowed_kinds"@));
    assert(binds_view(binds@) =~= b4 + opt_bind(
        listed(f.kinds),
        "allowed_kinds"@,
        BindView::TextList(kind_names(f)),
    ));
    let ghost c5 = views(conds@);
    let ghost b5 = binds_view(binds@);
    if let Some(v) = &filter.priorities {
        if v.len() > 0 {
            push_cond(conds, "priority IN $allowed_priorities");
            push_bind(binds, "allowed_priorities", BindValue::TextList(priority_name_list(v)));
        }
    }
    assert(views(conds@) =~= c5 + opt_cond(listed(f.priorities), "priority IN $allowed_priorities"@));
    assert(binds_view(binds@) =~= b5 + opt_bind(
        listed(f.priorities),
        "allowed_priorities"@,
        BindView::TextList(priority_names(f)),
    ));
    assert(views(conds@) =~= head_conditions(f));
    assert(binds_view(binds@) =~= head_binds(f));
}

/// Appends the list conditions.
fn push_lists(filter: &EnvelopeFilter, conds: &mut Vec<String>, binds: &mut Vec<(String, BindValue)>)
    ensures
        views(final(conds)@) == views(old(conds)@) + list_conditions(*filter),
        binds_view(final(binds)@) == binds_view(old(binds)@) + list_binds(*filter),
{
    push_list_criterion(&filter.tags, "tags CONTAINSALL $required_tags", "required_tags", conds, binds);
    push_list_criterion(
        &filter.project_refs,
        "project_refs CONTAINSALL $required_projects",
        "required_projects",
        conds,
        binds,
    );
    push_list_criterion(
        &filter.team_refs,
        "team_refs CONTAINSALL $required_teams",
        "required_teams",
        conds,
        binds,
    );
    assert(views(conds@) =~= views(old(conds)@) + list_conditions(*filter));
    assert(binds_view(binds@) =~= binds_view(old(binds)@) + list_binds(*filter));
}

/// Appends the correlation, thread and time conditions.
fn push_scalars(filter: &EnvelopeFilter, conds: &mut Vec<String>, binds: &mut Vec<(String, BindValue)>)
    ensures
        views(final(conds)@) == views(old(conds)@) + scalar_conditions(*filter),
        binds_view(final(binds)@) == binds_view(old(binds)@) + scalar_binds(*filter),
{
    push_text_criterion(&filter.correlation_id, "correlation_id = $corr_id", "corr_id", conds, binds);
    push_text_criterion(&filter.thread_id, "thread_id = $thread_id_v", "thread_id_v", conds, binds);
    if let Some(since) = filter.since_ns {
        push_cond(conds, "created_at >= $since_ns");
        push_bind(binds, "since_ns", BindValue::Int(since));
    }
    assert(views(conds@) =~= views(old(conds)@) + scalar_conditions(*filter));
    assert(binds_view(binds@) =~= binds_view(old(binds)@) + scalar_binds(*filter));
}

/// The statement and bindings that select the envelopes `filter` admits.
pub fn build_query_sql(filter: &EnvelopeFilter) -> (r: (String, Vec<(String, BindValue)>))
    ensures
        r.0@ == envelope_query_sql(*filter),
        binds_view(r.1@) == head_binds(*filter) + list_binds(*filter) + scalar_binds(*filter),
{
    let mut conds: Vec<String> = Vec::new();
    let mut binds: Vec<(String, BindValue)> = Vec::new();
    push_head(filter, &mut conds, &mut binds);
    push_lists(filter, &mut conds, &mut binds);
    push_scalars(filter, &mut conds, &mut binds);
    let mut sql = "SELECT * FROM envelope".to_owned();
    push_where(&mut sql, " ", &conds);
    push_str(&mut sql, " ORDER BY created_at ASC");
    if let Some(n) = filter.limit {
        push_str(&mut sql, " LIMIT ");
        push_decimal(&mut sql, n as u64);
    }
    assert(sql@ =~= envelope_query_sql(*filter));
    (sql, binds)
}

/// The queued envelopes of an inbox that are due at `now_ns` (any, when no
/// time is given), oldest first, at most `limit`.
pub open spec fn pending_sql(now_given: bool, limit: Option<usize>) -> Seq<char> {
    "SELECT * FROM envelope WHERE inbox_address = $addr AND status = 'queued'"@ + (if now_given {
        " AND (deliver_after IS NONE OR deliver_after <= $now_ns)"@
    } else {
        seq![]
    }) + " ORDER BY created_at ASC"@ + match limit {
        Some(n) => " LIMIT "@ + decimal(n as nat),
        None => seq![],
    }
}

/// The statement and bindings that list an inbox's pending envelopes.
pub fn pending_query_sql(inbox_address: &str, now_ns: Option<u64>, limit: Option<usize>) -> (r: (
    String,
    Vec<(String, BindValue)>,
))
    ensures
        r.0@ == pending_sql(now_ns is Some, limit),
        binds_view(r.1@) == seq![("addr"@, BindView::Text(inbox_address@))] + match now_ns {
            Some(n) => seq![("now_ns"@, BindView::Int(n))],
            None => seq![],
        },
{
    let mut sql = "SELECT * FROM envelope WHERE inbox_address = $addr AND status = 'queued'".to_owned();
    let mut binds: Vec<(String, BindValue)> = Vec::new();
    push_bind(&mut binds, "addr", BindValue::Text(inbox_address.to_owned()));
    let ghost b1 = binds_view(binds@);
    if let Some(now) = now_ns {
        push_str(&mut sql, " AND (deliver_after IS NONE OR deliver_after <= $now_ns)");
        push_bind(&mut binds, "now_ns", BindValue::Int(now));
    }
    push_str(&mut sql, " ORDER BY created_at ASC");
    if let Some(n) = limit {
        push_str(&mut sql, " LIMIT ");
        push_decimal(&mut sql, n as u64);
    }
    assert(sql@ =~= pending_sql(now_ns is Some, limit));
    assert(binds_view(binds@) =~= b1 + match now_ns {
        Some(n) => seq![("now_ns"@, BindView::Int(n))],
        None => seq![],
    });
    (sql, binds)
}

/// How an envelope is stored: under its own id when it has one (an
/// upsert that returns the stored row), else created under a fresh id.
pub fn enqueue_statement(record_id: &str) -> (r: (String, Option<String>))
    ensures
        record_id@.len() > 0 ==> (r.0@
            == "UPSERT type::record('envelope', $id) CONTENT $content RETURN AFTER"@ && (r.1
            matches Some(id) && id@ == record_id@)),
        record_id@.len() == 0 ==> r.0@ == "CREATE envelope CONTENT $content"@ && r.1 is None,
{
    if record_id.is_empty() {
        ("CREATE envelope CONTENT $content".to_owned(), None)
    } else {
        (
            "UPSERT type::record('envelope', $id) CONTENT $content RETURN AFTER".to_owned(),
            Some(record_id.to_owned()),
        )
    }
}

/// The refusal for an envelope that is not stored.
pub fn envelope_not_found(id: &str) -> (r: StoreError)
    ensures
        r matches StoreError::Other(m) && m@ == "envelope '"@ + id@ + "' not found"@,
{
    let mut m = "envelope '".to_owned();
    push_str(&mut m, id);
    push_str(&mut m, "' not found");
    StoreError::Other(m)
}

/// The statement that cancels an envelope: its status becomes `cancelled`
/// and its update time `$at`; no other field is written.
pub open spec fn cancel_sql() -> Seq<char> {
    "UPDATE type::record('envelope', $id) SET status = 'cancelled', updated_at = $at"@
}

/// Cancelling the envelope `id`, whose stored status is `existing` (`None`
/// when it is not stored), at `at_ns`: a refusal for a missing or terminal
/// envelope, which then stays as it was; otherwise the statement and
/// bindings that mark it cancelled at `at_ns`.
pub fn cancel_plan(id: &str, existing: Option<EnvelopeStatus>, at_ns: u64) -> (r: Result<
    (String, Vec<(String, BindValue)>),
    StoreError,
>)
    ensures
        match existing {
            None => r matches Err(StoreError::Other(m)) && m@ == "envelope '"@ + id@
                + "' not found"@,
            Some(st) => if st is Read || st is Failed || st is Expired || st is Cancelled {
                r matches Err(StoreError::Other(m)) && m@ == "envelope '"@ + id@
                    + "' is in terminal state "@ + st.spec_name() + " and cannot be cancelled"@
            } else {
                r matches Ok((sql, binds)) && sql@ == cancel_sql() && binds_view(binds@) == seq![
                    ("id"@, BindView::Text(id@)),
                    ("at"@, BindView::Int(at_ns)),
                ]
            },
        },
{
    let status = match existing {
        Some(st) => st,
        None => return Err(envelope_not_found(id)),
    };
    match check_cancellable(id, status) {
        Err(e) => Err(e),
        Ok(()) => {
            let mut binds: Vec<(String, BindValue)> = Vec::new();
            push_bind(&mut binds, "id", BindValue::Text(id.to_owned()));
            push_bind(&mut binds, "at", BindValue::Int(at_ns));
            Ok((
                "UPDATE type::record('envelope', $id) SET status = 'cancelled', updated_at = $at".to_owned(),
                binds,
            ))
        },
    }
}

/// An envelope may be cancelled unless it is in a terminal state.
pub fn check_cancellable(id: &str, status: EnvelopeStatus) -> (r: Result<(), StoreError>)
    ensures
        !(status is Read || status is Failed || status is Expired || status is Cancelled) ==> r
            is Ok,
        (status is Read || status is Failed || status is Expired || status is Cancelled) ==> (r
            matches Err(StoreError::Other(m)) && m@ == "envelope '"@ + id@
            + "' is in terminal state "@ + status.spec_name() + " and cannot be cancelled"@),
{
    if status.is_terminal() {
        let mut m = "envelope '".to_owned();
        push_str(&mut m, id);
        push_str(&mut m, "' is in terminal state ");
        push_str(&mut m, status.name());
        push_str(&mut m, " and cannot be cancelled");
        return Err(StoreError::Other(m));
    }
    Ok(())
}

} // verus!
verus! {

/// Two optional lists that a query treats alike: both empty or absent, or
/// both holding the same entries.
pub open spec fn same_listing<T>(a: Option<Vec<T>>, b: Option<Vec<T>>) -> bool {
    &&& listed(a) == listed(b)
    &&& listed(a) ==> a->0@ == b->0@
}

/// Filters that differ at most in giving an empty list where the other
/// gives none.
pub open spec fn same_envelope_criteria(f: EnvelopeFilter, g: EnvelopeFilter) -> bool {
    &&& f.inbox_address == g.inbox_address
    &&& f.to_address == g.to_address
    &&& f.from_address == g.from_address
    &&& same_listing(f.statuses, g.statuses)
    &&& same_listing(f.kinds, g.kinds)
    &&& same_listing(f.priorities, g.priorities)
    &&& same_listing(f.tags, g.tags)
    &&& same_listing(f.project_refs, g.project_refs)
    &&& same_listing(f.team_refs, g.team_refs)
    &&& f.correlation_id == g.correlation_id
    &&& f.thread_id == g.thread_id
    &&& f.since_ns == g.since_ns
    &&& f.limit == g.limit
}

/// An empty list is no criterion: filters that differ only in giving an
/// empty list where the other gives none get the same statement and the
/// same bindings.
pub proof fn lemma_empty_lists_ignored(f: EnvelopeFilter, g: EnvelopeFilter)
    requires
        same_envelope_criteria(f, g),
    ensures
        envelope_query_sql(f) == envelope_query_sql(g),
        head_binds(f) + list_binds(f) + scalar_binds(f) == head_binds(g) + list_binds(g)
            + scalar_binds(g),
{
    assert(head_conditions(f) == head_conditions(g));
    assert(list_conditions(f) == list_conditions(g));
    assert(scalar_conditions(f) == scalar_conditions(g));
    assert(head_binds(f) == head_binds(g));
    assert(list_binds(f) == list_binds(g));
    assert(scalar_binds(f) == scalar_binds(g));
}

/// The condition that uses the binding named `name`.
#[verifier::opaque]
pub open spec fn envelope_cond_of(name: Seq<char>) -> Seq<char> {
    if name == "inbox_addr"@ {
        "inbox_address = $inbox_addr"@
    } else if name == "to_addr"@ {
        "to_address = $to_addr"@
    } else if name == "from_addr"@ {
        "from_address = $from_addr"@
    } else if name == "allowed_statuses"@ {
        "status IN $allowed_statuses"@
    } else if name == "allowed_kinds"@ {
        "kind IN $allowed_kinds"@
    } else if name == "allowed_priorities"@ {
        "priority IN $allowed_priorities"@
    } else if name == "required_tags"@ {
        "tags CONTAINSALL $required_tags"@
    } else if name == "required_projects"@ {
        "project_refs CONTAINSALL $required_projects"@
    } else if name == "required_teams"@ {
        "team_refs CONTAINSALL $required_teams"@
    } else if name == "corr_id"@ {
        "correlation_id = $corr_id"@
    } else if name == "thread_id_v"@ {
        "thread_id = $thread_id_v"@
    } else {
        "created_at >= $since_ns"@
    }
}

/// The condition each binding name stands for.
proof fn lemma_envelope_cond_table()
    ensures
        envelope_cond_of("inbox_addr"@) == "inbox_address = $inbox_addr"@,
        envelope_cond_of("to_addr"@) == "to_address = $to_addr"@,
        envelope_cond_of("from_addr"@) == "from_address = $from_addr"@,
        envelope_cond_of("allowed_statuses"@) == "status IN $allowed_statuses"@,
        envelope_cond_of("allowed_kinds"@) == "kind IN $allowed_kinds"@,
        envelope_cond_of("allowed_priorities"@) == "priority IN $allowed_priorities"@,
        envelope_cond_of("required_tags"@) == "tags CONTAINSALL $required_tags"@,
        envelope_cond_of("required_projects"@) == "project_refs CONTAINSALL $required_projects"@,
        envelope_cond_of("required_teams"@) == "team_refs CONTAINSALL $required_teams"@,
        envelope_cond_of("corr_id"@) == "correlation_id = $corr_id"@,
        envelope_cond_of("thread_id_v"@) == "thread_id = $thread_id_v"@,
        envelope_cond_of("since_ns"@) == "created_at >= $since_ns"@,
{
    reveal(envelope_cond_of);
    reveal_strlit("inbox_addr");
    reveal_strlit("to_addr");
    reveal_strlit("from_addr");
    reveal_strlit("allowed_statuses");
    reveal_strlit("allowed_kinds");
    reveal_strlit("allowed_priorities");
    reveal_strlit("required_tags");
    reveal_strlit("required_projects");
    reveal_strlit("required_teams");
    reveal_strlit("corr_id");
    reveal_strlit("thread_id_v");
    reveal_strlit("since_ns");
    assert("inbox_addr"@.len() == 10 && "inbox_addr"@[0] == 'i');
    assert("to_addr"@.len() == 7 && "to_addr"@[0] == 't');
    assert("from_addr"@.len() == 9 && "from_addr"@[0] == 'f');
    assert("allowed_statuses"@.len() == 16 && "allowed_statuses"@[0] == 'a');
    assert("allowed_kinds"@.len() == 13 && "allowed_kinds"@[0] == 'a');
    assert("allowed_priorities"@.len() == 18 && "allowed_priorities"@[0] == 'a');
    assert("required_tags"@.len() == 13 && "required_tags"@[0] == 'r');
    assert("required_projects"@.len() == 17 && "required_projects"@[0] == 'r');
    assert("required_teams"@.len() == 14 && "required_teams"@[0] == 'r');
    assert("corr_id"@.len() == 7 && "corr_id"@[0] == 'c');
    assert("thread_id_v"@.len() == 11 && "thread_id_v"@[0] == 't');
    assert("since_ns"@.len() == 8 && "since_ns"@[0] == 's');
}

/// The conditions the bindings stand for, in order.
pub open spec fn conds_of_binds(b: Seq<(Seq<char>, BindView)>) -> Seq<Seq<char>> {
    b.map_values(|x: (Seq<char>, BindView)| envelope_cond_of(x.0))
}

proof fn lemma_conds_of_cat(a: Seq<(Seq<char>, BindView)>, b: Seq<(Seq<char>, BindView)>)
    ensures
        conds_of_binds(a + b) == conds_of_binds(a) + conds_of_binds(b),
{
    assert(conds_of_binds(a + b) =~= conds_of_binds(a) + conds_of_binds(b));
}

proof fn lemma_conds_of_opt(on: bool, name: Seq<char>, v: BindView)
    ensures
        conds_of_binds(opt_bind(on, name, v)) == opt_cond(on, envelope_cond_of(name)),
{
    assert(conds_of_binds(opt_bind(on, name, v)) =~= opt_cond(on, envelope_cond_of(name)));
}

proof fn lemma_head_conds(f: EnvelopeFilter)
    ensures
        conds_of_binds(head_binds(f)) == head_conditions(f),
{
    lemma_envelope_cond_table();
    let o1 = opt_bind(f.inbox_address is Some, "inbox_addr"@, BindView::Text(text_of(f.inbox_address)));
    let o2 = opt_bind(f.to_address is Some, "to_addr"@, BindView::Text(text_of(f.to_address)));
    let o3 = opt_bind(f.from_address is Some, "from_addr"@, BindView::Text(text_of(f.from_address)));
    let o4 = opt_bind(listed(f.statuses), "allowed_statuses"@, BindView::TextList(status_names(f)));
    let o5 = opt_bind(listed(f.kinds), "allowed_kinds"@, BindView::TextList(kind_names(f)));
    let o6 = opt_bind(listed(f.priorities), "allowed_priorities"@, BindView::TextList(priority_names(f)));
    lemma_conds_of_opt(f.inbox_address is Some, "inbox_addr"@, BindView::Text(text_of(f.inbox_address)));
    lemma_conds_of_opt(f.to_address is Some, "to_addr"@, BindView::Text(text_of(f.to_address)));
    lemma_conds_of_opt(f.from_address is Some, "from_addr"@, BindView::Text(text_of(f.from_address)));
    lemma_conds_of_opt(listed(f.statuses), "allowed_statuses"@, BindView::TextList(status_names(f)));
    lemma_conds_of_opt(listed(f.kinds), "allowed_kinds"@, BindView::TextList(kind_names(f)));
    lemma_conds_of_opt(listed(f.priorities), "allowed_priorities"@, BindView::TextList(priority_names(f)));
    lemma_conds_of_cat(o1, o2);
    lemma_conds_of_cat(o1 + o2, o3);
    lemma_conds_of_cat(o1 + o2 + o3, o4);
    lemma_conds_of_cat(o1 + o2 + o3 + o4, o5);
    lemma_conds_of_cat(o1 + o2 + o3 + o4 + o5, o6);
}

proof fn lemma_list_conds(f: EnvelopeFilter)
    ensures
        conds_of_binds(list_binds(f)) == list_conditions(f),
{
    lemma_envelope_cond_table();
    let o1 = opt_bind(listed(f.tags), "required_tags"@, BindView::TextList(texts_of(f.tags)));
    let o2 = opt_bind(listed(f.project_refs), "required_projects"@, BindView::TextList(texts_of(f.project_refs)));
    let o3 = opt_bind(listed(f.team_refs), "required_teams"@, BindView::TextList(texts_of(f.team_refs)));
    lemma_conds_of_opt(listed(f.tags), "required_tags"@, BindView::TextList(texts_of(f.tags)));
    lemma_conds_of_opt(listed(f.project_refs), "required_projects"@, BindView::TextList(texts_of(f.project_refs)));
    lemma_conds_of_opt(listed(f.team_refs), "required_teams"@, BindView::TextList(texts_of(f.team_refs)));
    lemma_conds_of_cat(o1, o2);
    lemma_conds_of_cat(o1 + o2, o3);
}

proof fn lemma_scalar_conds(f: EnvelopeFilter)
    ensures
        conds_of_binds(scalar_binds(f)) == scalar_conditions(f),
{
    lemma_envelope_cond_table();
    let n = BindView::Int(
        match f.since_ns {
            Some(n) => n,
            None => 0,
        },
    );
    let o1 = opt_bind(f.correlation_id is Some, "corr_id"@, BindView::Text(text_of(f.correlation_id)));
    let o2 = opt_bind(f.thread_id is Some, "thread_id_v"@, BindView::Text(text_of(f.thread_id)));
    let o3 = opt_bind(f.since_ns is Some, "since_ns"@, n);
    lemma_conds_of_opt(f.correlation_id is Some, "corr_id"@, BindView::Text(text_of(f.correlation_id)));
    lemma_conds_of_opt(f.thread_id is Some, "thread_id_v"@, BindView::Text(text_of(f.thread_id)));
    lemma_conds_of_opt(f.since_ns is Some, "since_ns"@, n);
    lemma_conds_of_cat(o1, o2);
    lemma_conds_of_cat(o1 + o2, o3);
}

/// Every binding of the envelope query has its own condition in the
/// statement, in the same order, and there is no condition without one.
pub proof fn lemma_binds_match_conditions(f: EnvelopeFilter)
    ensures
        conds_of_binds(head_binds(f) + list_binds(f) + scalar_binds(f)) == head_conditions(f)
            + list_conditions(f) + scalar_conditions(f),
{
    lemma_head_conds(f);
    lemma_list_conds(f);
    lemma_scalar_conds(f);
    lemma_conds_of_cat(head_binds(f), list_binds(f));
    lemma_conds_of_cat(head_binds(f) + list_binds(f), scalar_binds(f));
}

} // verus!
verus! {

/// The place of a binding name in the order the envelope query binds them.
#[verifier::opaque]
pub open spec fn envelope_bind_rank(name: Seq<char>) -> int {
    if name == "inbox_addr"@ {
        0
    } else if name == "to_addr"@ {
        1
    } else if name == "from_addr"@ {
        2
    } else if name == "allowed_statuses"@ {
        3
    } else if name == "allowed_kinds"@ {
        4
    } else if name == "allowed_priorities"@ {
        5
    } else if name == "required_tags"@ {
        6
    } else if name == "required_projects"@ {
        7
    } else if name == "required_teams"@ {
        8
    } else if name == "corr_id"@ {
        9
    } else if name == "thread_id_v"@ {
        10
    } else {
        11
    }
}

proof fn lemma_envelope_rank_table()
    ensures
        envelope_bind_rank("inbox_addr"@) == 0,
        envelope_bind_rank("to_addr"@) == 1,
        envelope_bind_rank("from_addr"@) == 2,
        envelope_bind_rank("allowed_statuses"@) == 3,
        envelope_bind_rank("allowed_kinds"@) == 4,
        envelope_bind_rank("allowed_priorities"@) == 5,
        envelope_bind_rank("required_tags"@) == 6,
        envelope_bind_rank("required_projects"@) == 7,
        envelope_bind_rank("required_teams"@) == 8,
        envelope_bind_rank("corr_id"@) == 9,
        envelope_bind_rank("thread_id_v"@) == 10,
        envelope_bind_rank("since_ns"@) == 11,
{
    reveal(envelope_bind_rank);
    reveal_strlit("inbox_addr");
    reveal_strlit("to_addr");
    reveal_strlit("from_addr");
    reveal_strlit("allowed_statuses");
    reveal_strlit("allowed_kinds");
    reveal_strlit("allowed_priorities");
    reveal_strlit("required_tags");
    reveal_strlit("required_projects");
    reveal_strlit("required_teams");
    reveal_strlit("corr_id");
    reveal_strlit("thread_id_v");
    reveal_strlit("since_ns");
    assert("inbox_addr"@.len() == 10 && "inbox_addr"@[0] == 'i');
    assert("to_addr"@.len() == 7 && "to_addr"@[0] == 't');
    assert("from_addr"@.len() == 9 && "from_addr"@[0] == 'f');
    assert("allowed_statuses"@.len() == 16 && "allowed_statuses"@[0] == 'a');
    assert("allowed_kinds"@.len() == 13 && "allowed_kinds"@[0] == 'a');
    assert("allowed_priorities"@.len() == 18 && "allowed_priorities"@[0] == 'a');
    assert("required_tags"@.len() == 13 && "required_tags"@[0] == 'r');
    assert("required_projects"@.len() == 17 && "required_projects"@[0] == 'r');
    assert("required_teams"@.len() == 14 && "required_teams"@[0] == 'r');
    assert("corr_id"@.len() == 7 && "corr_id"@[0] == 'c');
    assert("thread_id_v"@.len() == 11 && "thread_id_v"@[0] == 't');
    assert("since_ns"@.len() == 8 && "since_ns"@[0] == 's');
}

/// The bindings' names come in strictly increasing place, every place in
/// `[lo, hi)`.
pub open spec fn ranked_between(b: Seq<(Seq<char>, BindView)>, lo: int, hi: int) -> bool {
    &&& forall|i: int|
        0 <= i < b.len() ==> lo <= envelope_bind_rank(#[trigger] b[i].0) < hi
    &&& forall|i: int, j: int|
        0 <= i < j < b.len() ==> envelope_bind_rank(#[trigger] b[i].0) < envelope_bind_rank(
            #[trigger] b[j].0,
        )
}

proof fn lemma_ranked_opt(on: bool, name: Seq<char>, v: BindView, k: int)
    requires
        envelope_bind_rank(name) == k,
    ensures
        ranked_between(opt_bind(on, name, v), k, k + 1),
{
}

proof fn lemma_ranked_cat(a: Seq<(Seq<char>, BindView)>, b: Seq<(Seq<char>, BindView)>, lo: int, mid: int, hi: int)
    requires
        lo <= mid <= hi,
        ranked_between(a, lo, mid),
        ranked_between(b, mid, hi),
    ensures
        ranked_between(a + b, lo, hi),
{
    let r = a + b;
    assert forall|i: int| 0 <= i < r.len() implies lo <= envelope_bind_rank(#[trigger] r[i].0) < hi by {
        if i < a.len() {
            assert(r[i] == a[i]);
            assert(lo <= envelope_bind_rank(a[i].0) < mid);
        } else {
            assert(r[i] == b[i - a.len()]);
            assert(mid <= envelope_bind_rank(b[i - a.len()].0) < hi);
        }
    }
    assert forall|i: int, j: int| 0 <= i < j < r.len() implies envelope_bind_rank(
        #[trigger] r[i].0,
    ) < envelope_bind_rank(#[trigger] r[j].0) by {
        if i < a.len() {
            assert(r[i] == a[i]);
            assert(lo <= envelope_bind_rank(a[i].0) < mid);
        } else {
            assert(r[i] == b[i - a.len()]);
            assert(mid <= envelope_bind_rank(b[i - a.len()].0) < hi);
        }
        if j < a.len() {
            assert(r[j] == a[j]);
            assert(lo <= envelope_bind_rank(a[j].0) < mid);
        } else {
            assert(r[j] == b[j - a.len()]);
            assert(mid <= envelope_bind_rank(b[j - a.len()].0) < hi);
        }
    }
}

proof fn lemma_ranked_push(acc: Seq<(Seq<char>, BindView)>, lo: int, on: bool, name: Seq<char>, v: BindView, k: int)
    requires
        lo <= k,
        ranked_between(acc, lo, k),
        envelope_bind_rank(name) == k,
    ensures
        ranked_between(acc + opt_bind(on, name, v), lo, k + 1),
{
    lemma_ranked_opt(on, name, v, k);
    lemma_ranked_cat(acc, opt_bind(on, name, v), lo, k, k + 1);
}

proof fn lemma_head_ranked(f: EnvelopeFilter)
    ensures
        ranked_between(head_binds(f), 0, 6),
{
    lemma_envelope_rank_table();
    lemma_ranked_opt(f.inbox_address is Some, "inbox_addr"@, BindView::Text(text_of(f.inbox_address)), 0);
    let a1 = opt_bind(f.inbox_address is Some, "inbox_addr"@, BindView::Text(text_of(f.inbox_address)));
    lemma_ranked_push(a1, 0, f.to_address is Some, "to_addr"@, BindView::Text(text_of(f.to_address)), 1);
    let a2 = a1 + opt_bind(f.to_address is Some, "to_addr"@, BindView::Text(text_of(f.to_address)));
    lemma_ranked_push(a2, 0, f.from_address is Some, "from_addr"@, BindView::Text(text_of(f.from_address)), 2);
    let a3 = a2 + opt_bind(f.from_address is Some, "from_addr"@, BindView::Text(text_of(f.from_address)));
    lemma_ranked_push(a3, 0, listed(f.statuses), "allowed_statuses"@, BindView::TextList(status_names(f)), 3);
    let a4 = a3 + opt_bind(listed(f.statuses), "allowed_statuses"@, BindView::TextList(status_names(f)));
    lemma_ranked_push(a4, 0, listed(f.kinds), "allowed_kinds"@, BindView::TextList(kind_names(f)), 4);
    let a5 = a4 + opt_bind(listed(f.kinds), "allowed_kinds"@, BindView::TextList(kind_names(f)));
    lemma_ranked_push(a5, 0, listed(f.priorities), "allowed_priorities"@, BindView::TextList(priority_names(f)), 5);
    let a6 = a5 + opt_bind(listed(f.priorities), "allowed_priorities"@, BindView::TextList(priority_names(f)));
    assert(a6 == head_binds(f));
}

proof fn lemma_list_ranked(f: EnvelopeFilter)
    ensures
        ranked_between(list_binds(f), 6, 9),
{
    lemma_envelope_rank_table();
    lemma_ranked_opt(listed(f.tags), "required_tags"@, BindView::TextList(texts_of(f.tags)), 6);
    let a7 = opt_bind(listed(f.tags), "required_tags"@, BindView::TextList(texts_of(f.tags)));
    lemma_ranked_push(a7, 6, listed(f.project_refs), "required_projects"@, BindView::TextList(texts_of(f.project_refs)), 7);
    let a8 = a7 + opt_bind(listed(f.project_refs), "required_projects"@, BindView::TextList(texts_of(f.project_refs)));
    lemma_ranked_push(a8, 6, listed(f.team_refs), "required_teams"@, BindView::TextList(texts_of(f.team_refs)), 8);
    let a9 = a8 + opt_bind(listed(f.team_refs), "required_teams"@, BindView::TextList(texts_of(f.team_refs)));
    assert(a9 == list_binds(f));
}

proof fn lemma_scalar_ranked(f: EnvelopeFilter)
    ensures
        ranked_between(scalar_binds(f), 9, 12),
{
    lemma_envelope_rank_table();
    lemma_ranked_opt(f.correlation_id is Some, "corr_id"@, BindView::Text(text_of(f.correlation_id)), 9);
    let a10 = opt_bind(f.correlation_id is Some, "corr_id"@, BindView::Text(text_of(f.correlation_id)));
    lemma_ranked_push(a10, 9, f.thread_id is Some, "thread_id_v"@, BindView::Text(text_of(f.thread_id)), 10);
    let a11 = a10 + opt_bind(f.thread_id is Some, "thread_id_v"@, BindView::Text(text_of(f.thread_id)));
    lemma_ranked_push(a11, 9, f.since_ns is Some, "since_ns"@, BindView::Int(
            match f.since_ns {
                Some(n) => n,
                None => 0,
            },
        ), 11);
    let a12 = a11 + opt_bind(f.since_ns is Some, "since_ns"@, BindView::Int(
            match f.since_ns {
                Some(n) => n,
                None => 0,
            },
        ));
    assert(a12 == scalar_binds(f));
}

/// The bindings of the envelope query have pairwise distinct names.
pub proof fn lemma_bind_names_distinct(f: EnvelopeFilter)
    ensures
        ({
            let b = head_binds(f) + list_binds(f) + scalar_binds(f);
            forall|i: int, j: int| 0 <= i < j < b.len() ==> #[trigger] b[i].0 != #[trigger] b[j].0
        }),
{
    lemma_head_ranked(f);
    lemma_list_ranked(f);
    lemma_scalar_ranked(f);
    lemma_ranked_cat(head_binds(f), list_binds(f), 0, 6, 9);
    lemma_ranked_cat(head_binds(f) + list_binds(f), scalar_binds(f), 0, 9, 12);
    let b = head_binds(f) + list_binds(f) + scalar_binds(f);
    assert forall|i: int, j: int| 0 <= i < j < b.len() implies #[trigger] b[i].0 != #[trigger] b[j].0 by {
        assert(envelope_bind_rank(b[i].0) < envelope_bind_rank(b[j].0));
    }
}

} // verus!
verus! {

/// The condition a binding name stands for mentions it as `$name`.
pub open spec fn names_itself(name: Seq<char>) -> bool {
    contains(envelope_cond_of(name), "$"@ + name)
}

/// Every binding's condition mentions it as `$name`.
pub open spec fn all_name_themselves(b: Seq<(Seq<char>, BindView)>) -> bool {
    forall|i: int| 0 <= i < b.len() ==> names_itself(#[trigger] b[i].0)
}

proof fn lemma_names_itself_table()
    ensures
        names_itself("inbox_addr"@),
        names_itself("to_addr"@),
        names_itself("from_addr"@),
        names_itself("allowed_statuses"@),
        names_itself("allowed_kinds"@),
        names_itself("allowed_priorities"@),
        names_itself("required_tags"@),
        names_itself("required_projects"@),
        names_itself("required_teams"@),
        names_itself("corr_id"@),
        names_itself("thread_id_v"@),
        names_itself("since_ns"@),
{
    lemma_envelope_cond_table();
    reveal_strlit("$");
    reveal_strlit("inbox_addr");
    reveal_strlit("inbox_address = $inbox_addr");
    assert("inbox_address = $inbox_addr"@.subrange(16, 27) =~= "$"@ + "inbox_addr"@);
    assert(occurs_at(envelope_cond_of("inbox_addr"@), "$"@ + "inbox_addr"@, 16));
    reveal_strlit("to_addr");
    reveal_strlit("to_address = $to_addr");
    assert("to_address = $to_addr"@.subrange(13, 21) =~= "$"@ + "to_addr"@);
    assert(occurs_at(envelope_cond_of("to_addr"@), "$"@ + "to_addr"@, 13));
    reveal_strlit("from_addr");
    reveal_strlit("from_address = $from_addr");
    assert("from_address = $from_addr"@.subrange(15, 25) =~= "$"@ + "from_addr"@);
    assert(occurs_at(envelope_cond_of("from_addr"@), "$"@ + "from_addr"@, 15));
    reveal_strlit("allowed_statuses");
    reveal_strlit("status IN $allowed_statuses");
    assert("status IN $allowed_statuses"@.subrange(10, 27) =~= "$"@ + "allowed_statuses"@);
    assert(occurs_at(envelope_cond_of("allowed_statuses"@), "$"@ + "allowed_statuses"@, 10));
    reveal_strlit("allowed_kinds");
    reveal_strlit("kind IN $allowed_kinds");
    assert("kind IN $allowed_kinds"@.subrange(8, 22) =~= "$"@ + "allowed_kinds"@);
    assert(occurs_at(envelope_cond_of("allowed_kinds"@), "$"@ + "allowed_kinds"@, 8));
    reveal_strlit("allowed_priorities");
    reveal_strlit("priority IN $allowed_priorities");
    assert("priority IN $allowed_priorities"@.subrange(12, 31) =~= "$"@ + "allowed_priorities"@);
    assert(occurs_at(envelope_cond_of("allowed_priorities"@), "$"@ + "allowed_priorities"@, 12));
    reveal_strlit("required_tags");
    reveal_strlit("tags CONTAINSALL $required_tags");
    assert("tags CONTAINSALL $required_tags"@.subrange(17, 31) =~= "$"@ + "required_tags"@);
    assert(occurs_at(envelope_cond_of("required_tags"@), "$"@ + "required_tags"@, 17));
    reveal_strlit("required_projects");
    reveal_strlit("project_refs CONTAINSALL $required_projects");
    assert("project_refs CONTAINSALL $required_projects"@.subrange(25, 43) =~= "$"@ + "required_projects"@);
    assert(occurs_at(envelope_cond_of("required_projects"@), "$"@ + "required_projects"@, 25));
    reveal_strlit("required_teams");
    reveal_strlit("team_refs CONTAINSALL $required_teams");
    assert("team_refs CONTAINSALL $required_teams"@.subrange(22, 37) =~= "$"@ + "required_teams"@);
    assert(occurs_at(envelope_cond_of("required_teams"@), "$"@ + "required_teams"@, 22));
    reveal_strlit("corr_id");
    reveal_strlit("correlation_id = $corr_id");
    assert("correlation_id = $corr_id"@.subrange(17, 25) =~= "$"@ + "corr_id"@);
    assert(occurs_at(envelope_cond_of("corr_id"@), "$"@ + "corr_id"@, 17));
    reveal_strlit("thread_id_v");
    reveal_strlit("thread_id = $thread_id_v");
    assert("thread_id = $thread_id_v"@.subrange(12, 24) =~= "$"@ + "thread_id_v"@);
    assert(occurs_at(envelope_cond_of("thread_id_v"@), "$"@ + "thread_id_v"@, 12));
    reveal_strlit("since_ns");
    reveal_strlit("created_at >= $since_ns");
    assert("created_at >= $since_ns"@.subrange(14, 23) =~= "$"@ + "since_ns"@);
    assert(occurs_at(envelope_cond_of("since_ns"@), "$"@ + "since_ns"@, 14));
}

proof fn lemma_all_name_themselves_cat(a: Seq<(Seq<char>, BindView)>, b: Seq<(Seq<char>, BindView)>)
    requires
        all_name_themselves(a),
        all_name_themselves(b),
    ensures
        all_name_themselves(a + b),
{
    let r = a + b;
    assert forall|i: int| 0 <= i < r.len() implies names_itself(#[trigger] r[i].0) by {
        if i < a.len() {
            assert(r[i] == a[i]);
            assert(names_itself(a[i].0));
        } else {
            assert(r[i] == b[i - a.len()]);
            assert(names_itself(b[i - a.len()].0));
        }
    }
}

proof fn lemma_all_name_themselves_opt(on: bool, name: Seq<char>, v: BindView)
    requires
        names_itself(name),
    ensures
        all_name_themselves(opt_bind(on, name, v)),
{
}

proof fn lemma_binds_name_themselves(f: EnvelopeFilter)
    ensures
        all_name_themselves(head_binds(f) + list_binds(f) + scalar_binds(f)),
{
    lemma_names_itself_table();
    lemma_all_name_themselves_opt(f.inbox_address is Some, "inbox_addr"@, BindView::Text(text_of(f.inbox_address)));
    lemma_all_name_themselves_opt(f.to_address is Some, "to_addr"@, BindView::Text(text_of(f.to_address)));
    lemma_all_name_themselves_opt(f.from_address is Some, "from_addr"@, BindView::Text(text_of(f.from_address)));
    lemma_all_name_themselves_opt(listed(f.statuses), "allowed_statuses"@, BindView::TextList(status_names(f)));
    lemma_all_name_themselves_opt(listed(f.kinds), "allowed_kinds"@, BindView::TextList(kind_names(f)));
    lemma_all_name_themselves_opt(listed(f.priorities), "allowed_priorities"@, BindView::TextList(priority_names(f)));
    lemma_all_name_themselves_opt(listed(f.tags), "required_tags"@, BindView::TextList(texts_of(f.tags)));
    lemma_all_name_themselves_opt(listed(f.project_refs), "required_projects"@, BindView::TextList(texts_of(f.project_refs)));
    lemma_all_name_themselves_opt(listed(f.team_refs), "required_teams"@, BindView::TextList(texts_of(f.team_refs)));
    lemma_all_name_themselves_opt(f.correlation_id is Some, "corr_id"@, BindView::Text(text_of(f.correlation_id)));
    lemma_all_name_themselves_opt(f.thread_id is Some, "thread_id_v"@, BindView::Text(text_of(f.thread_id)));
    lemma_all_name_themselves_opt(f.since_ns is Some, "since_ns"@, BindView::Int(
            match f.since_ns {
                Some(n) => n,
                None => 0,
            },
        ));
    let a1 = opt_bind(f.inbox_address is Some, "inbox_addr"@, BindView::Text(text_of(f.inbox_address)));
    lemma_all_name_themselves_cat(a1, opt_bind(f.to_address is Some, "to_addr"@, BindView::Text(text_of(f.to_address))));
    let a2 = a1 + opt_bind(f.to_address is Some, "to_addr"@, BindView::Text(text_of(f.to_address)));
    lemma_all_name_themselves_cat(a2, opt_bind(f.from_address is Some, "from_addr"@, BindView::Text(text_of(f.from_address))));
    let a3 = a2 + opt_bind(f.from_address is Some, "from_addr"@, BindView::Text(text_of(f.from_address)));
    lemma_all_name_themselves_cat(a3, opt_bind(listed(f.statuses), "allowed_statuses"@, BindView::TextList(status_names(f))));
    let a4 = a3 + opt_bind(listed(f.statuses), "allowed_statuses"@, BindView::TextList(status_names(f)));
    lemma_all_name_themselves_cat(a4, opt_bind(listed(f.kinds), "allowed_kinds"@, BindView::TextList(kind_names(f))));
    let a5 = a4 + opt_bind(listed(f.kinds), "allowed_kinds"@, BindView::TextList(kind_names(f)));
    lemma_all_name_themselves_cat(a5, opt_bind(listed(f.priorities), "allowed_priorities"@, BindView::TextList(priority_names(f))));
    let a6 = a5 + opt_bind(listed(f.priorities), "allowed_priorities"@, BindView::TextList(priority_names(f)));
    assert(a6 == head_binds(f));
    let a7 = opt_bind(listed(f.tags), "required_tags"@, BindView::TextList(texts_of(f.tags)));
    lemma_all_name_themselves_cat(a7, opt_bind(listed(f.project_refs), "required_projects"@, BindView::TextList(texts_of(f.project_refs))));
    let a8 = a7 + opt_bind(listed(f.project_refs), "required_projects"@, BindView::TextList(texts_of(f.project_refs)));
    lemma_all_name_themselves_cat(a8, opt_bind(listed(f.team_refs), "required_teams"@, BindView::TextList(texts_of(f.team_refs))));
    let a9 = a8 + opt_bind(listed(f.team_refs), "required_teams"@, BindView::TextList(texts_of(f.team_refs)));
    assert(a9 == list_binds(f));
    let a10 = opt_bind(f.correlation_id is Some, "corr_id"@, BindView::Text(text_of(f.correlation_id)));
    lemma_all_name_themselves_cat(a10, opt_bind(f.thread_id is Some, "thread_id_v"@, BindView::Text(text_of(f.thread_id))));
    let a11 = a10 + opt_bind(f.thread_id is Some, "thread_id_v"@, BindView::Text(text_of(f.thread_id)));
    lemma_all_name_themselves_cat(a11, opt_bind(f.since_ns is Some, "since_ns"@, BindView::Int(
            match f.since_ns {
                Some(n) => n,
                None => 0,
            },
        )));
    let a12 = a11 + opt_bind(f.since_ns is Some, "since_ns"@, BindView::Int(
            match f.since_ns {
                Some(n) => n,
                None => 0,
            },
        ));
    assert(a12 == scalar_binds(f));
    lemma_all_name_themselves_cat(head_binds(f), list_binds(f));
    lemma_all_name_themselves_cat(head_binds(f) + list_binds(f), scalar_binds(f));
}

proof fn lemma_occurs_within(h: Seq<char>, m: Seq<char>, n: Seq<char>, i: int, j: int)
    requires
        occurs_at(h, m, i),
        occurs_at(m, n, j),
    ensures
        occurs_at(h, n, i + j),
{
    assert(h.subrange(i + j, i + j + n.len()) =~= m.subrange(j, j + n.len()));
}

proof fn lemma_occurs_in_middle(a: Seq<char>, b: Seq<char>, c: Seq<char>, n: Seq<char>, i: int)
    requires
        occurs_at(b, n, i),
    ensures
        occurs_at(a + b + c, n, a.len() + i),
{
    assert((a + b + c).subrange(a.len() + i, a.len() + i + n.len()) =~= b.subrange(i, i + n.len()));
}

proof fn lemma_join_occurs(parts: Seq<Seq<char>>, sep: Seq<char>, k: int) -> (off: int)
    requires
        0 <= k < parts.len(),
    ensures
        occurs_at(join(parts, sep), parts[k], off),
    decreases parts.len(),
{
    if parts.len() == 1 {
        assert(join(parts, sep).subrange(0, parts[k].len() as int) =~= parts[k]);
        0
    } else {
        let prev = parts.drop_last();
        if k == parts.len() - 1 {
            let off: int = (join(prev, sep).len() + sep.len()) as int;
            assert(join(parts, sep).subrange(off, off + parts[k].len()) =~= parts[k]);
            off
        } else {
            let off = lemma_join_occurs(prev, sep, k);
            assert(prev[k] == parts[k]);
            let e: Seq<char> = seq![];
            lemma_occurs_in_middle(e, join(prev, sep), sep + parts.last(), parts[k], off);
            assert(e + join(prev, sep) + (sep + parts.last()) =~= join(parts, sep));
            off
        }
    }
}

/// Every binding of the envelope query is used by the statement: its name
/// occurs there as `$name`.
pub proof fn lemma_binds_named_in_statement(f: EnvelopeFilter)
    ensures
        ({
            let b = head_binds(f) + list_binds(f) + scalar_binds(f);
            forall|i: int| 0 <= i < b.len() ==> contains(envelope_query_sql(f), "$"@ + #[trigger] b[i].0)
        }),
{
    let b = head_binds(f) + list_binds(f) + scalar_binds(f);
    let conds = head_conditions(f) + list_conditions(f) + scalar_conditions(f);
    lemma_binds_match_conditions(f);
    lemma_binds_name_themselves(f);
    assert forall|i: int| 0 <= i < b.len() implies contains(envelope_query_sql(f), "$"@ + #[trigger] b[i].0) by {
        let name = b[i].0;
        assert(conds_of_binds(b)[i] == envelope_cond_of(name));
        assert(conds[i] == envelope_cond_of(name));
        assert(names_itself(name));
        let j = choose|j: int| occurs_at(envelope_cond_of(name), "$"@ + name, j);
        let off = lemma_join_occurs(conds, " AND "@, i);
        let joined = join(conds, " AND "@);
        lemma_occurs_within(joined, conds[i], "$"@ + name, off, j);
        let head = "SELECT * FROM envelope"@ + " "@ + "WHERE "@;
        let tail = " ORDER BY created_at ASC"@ + match f.limit {
            Some(n) => " LIMIT "@ + decimal(n as nat),
            None => seq![],
        };
        lemma_occurs_in_middle(head, joined, tail, "$"@ + name, off + j);
        assert(conds.len() > 0);
        assert(envelope_query_sql(f) =~= head + joined + tail);
    }
}

} // verus!
