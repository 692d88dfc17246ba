//! The queries that the memory tables answer their filters with.
use vstd::prelude::*;

use super::sql::{
    binds_view, listed, opt_bind, opt_cond, push_bind, push_cond, push_list_criterion,
    push_text_criterion, push_where, text_of, texts_of, where_clause, BindValue, BindView,
};
use crate::text::{decimal, lower, push_decimal, push_str, to_ascii_lowercase, trim, trim_string, views};
use super::error::StoreError;
use crate::types::kinds::MemoryKind;
use crate::types::memory::{LongContentKind, MemoryScope, ReferenceSourceKind, ShortContentKind};

verus! {

/// Names of a list of `ShortContentKind` values, in order.
pub open spec fn short_kind_names_spec(v: Seq<ShortContentKind>) -> Seq<Seq<char>> {
    v.map_values(|k: ShortContentKind| k.spec_name())
}

/// Names of a list of `ShortContentKind` values, in order.
fn short_kind_names(v: &Vec<ShortContentKind>) -> (r: Vec<String>)
    ensures
        views(r@) == short_kind_names_spec(v@),
{
    let mut r: Vec<String> = Vec::new();
    let mut i: usize = 0;
    while i < v.len()
        invariant
            i <= v.len(),
            views(r@) == short_kind_names_spec(v@.take(i as int)),
        decreases v.len() - i,
    {
        let ghost before = r@;
        let x = v[i].to_string();
        r.push(x);
        proof {
            assert(views(r@) =~= views(before).push(x@));
            assert(short_kind_names_spec(v@.take(i + 1)) =~= short_kind_names_spec(v@.take(i as int)).push(v@[i as int].spec_name()));
        }
        i += 1;
    }
    proof {
        assert(v@.take(v@.len() as int) =~= v@);
    }
    r
}

/// Names of a list of `LongContentKind` values, in order.
pub open spec fn long_kind_names_spec(v: Seq<LongContentKind>) -> Seq<Seq<char>> {
    v.map_values(|k: LongContentKind| k.spec_name())
}

/// Names of a list of `LongContentKind` values, in order.
fn long_kind_names(v: &Vec<LongContentKind>) -> (r: Vec<String>)
    ensures
        views(r@) == long_kind_names_spec(v@),
{
    let mut r: Vec<String> = Vec::new();
    let mut i: usize = 0;
    while i < v.len()
        invariant
            i <= v.len(),
            views(r@) == long_kind_names_spec(v@.take(i as int)),
        decreases v.len() - i,
    {
        let ghost before = r@;
        let x = v[i].to_string();
        r.push(x);
        proof {
            assert(views(r@) =~= views(before).push(x@));
            assert(long_kind_names_spec(v@.take(i + 1)) =~= long_kind_names_spec(v@.take(i as int)).push(v@[i as int].spec_name()));
        }
        i += 1;
    }
    proof {
        assert(v@.take(v@.len() as int) =~= v@);
    }
    r
}

/// Names of a list of `ReferenceSourceKind` values, in order.
pub open spec fn reference_kind_names_spec(v: Seq<ReferenceSourceKind>) -> Seq<Seq<char>> {
    v.map_values(|k: ReferenceSourceKind| k.spec_name())
}

/// Names of a list of `ReferenceSourceKind` values, in order.
fn reference_kind_names(v: &Vec<ReferenceSourceKind>) -> (r: Vec<String>)
    ensures
        views(r@) == reference_kind_names_spec(v@),
{
    let mut r: Vec<String> = Vec::new();
    let mut i: usize = 0;
    while i < v.len()
        invariant
            i <= v.len(),
            views(r@) == reference_kind_names_spec(v@.take(i as int)),
        decreases v.len() - i,
    {
        let ghost before = r@;
        let x = v[i].to_string();
        r.push(x);
        proof {
            assert(views(r@) =~= views(before).push(x@));
            assert(reference_kind_names_spec(v@.take(i + 1)) =~= reference_kind_names_spec(v@.take(i as int)).push(v@[i as int].spec_name()));
        }
        i += 1;
    }
    proof {
        assert(v@.take(v@.len() as int) =~= v@);
    }
    r
}

/// Names of a list of `MemoryKind` values, in order.
pub open spec fn memory_kind_names_spec(v: Seq<MemoryKind>) -> Seq<Seq<char>> {
    v.map_values(|k: MemoryKind| k.spec_name())
}

/// Names of a list of `MemoryKind` values, in order.
fn memory_kind_names(v: &Vec<MemoryKind>) -> (r: Vec<String>)
    ensures
        views(r@) == memory_kind_names_spec(v@),
{
    let mut r: Vec<String> = Vec::new();
    let mut i: usize = 0;
    while i < v.len()
        invariant
            i <= v.len(),
            views(r@) == memory_kind_names_spec(v@.take(i as int)),
        decreases v.len() - i,
    {
        let ghost before = r@;
        let x = v[i].to_string();
        r.push(x);
        proof {
            assert(views(r@) =~= views(before).push(x@));
            assert(memory_kind_names_spec(v@.take(i + 1)) =~= memory_kind_names_spec(v@.take(i as int)).push(v@[i as int].spec_name()));
        }
        i += 1;
    }
    proof {
        assert(v@.take(v@.len() as int) =~= v@);
    }
    r
}

/// Appends an allow-list condition over `ShortContentKind` names.
fn push_short_kinds(
    v: &Option<Vec<ShortContentKind>>,
    cond: &str,
    conds: &mut Vec<String>,
    binds: &mut Vec<(String, BindValue)>,
)
    ensures
        views(final(conds)@) == views(old(conds)@) + opt_cond(listed(*v), cond@),
        binds_view(final(binds)@) == binds_view(old(binds)@) + opt_bind(
            listed(*v),
            "allowed_kinds"@,
            BindView::TextList(short_kind_names_spec(match *v {
                Some(l) => l@,
                None => seq![],
            })),
        ),
{
    if let Some(l) = v {
        if l.len() > 0 {
            push_cond(conds, cond);
            push_bind(binds, "allowed_kinds", BindValue::TextList(short_kind_names(l)));
        }
    }
    assert(views(conds@) =~= views(old(conds)@) + opt_cond(listed(*v), cond@));
    assert(binds_view(binds@) =~= binds_view(old(binds)@) + opt_bind(
        listed(*v),
        "allowed_kinds"@,
        BindView::TextList(short_kind_names_spec(match *v {
            Some(l) => l@,
            None => seq![],
        })),
    ));
}

/// Appends an allow-list condition over `LongContentKind` names.
fn push_long_kinds(
    v: &Option<Vec<LongContentKind>>,
    cond: &str,
    conds: &mut Vec<String>,
    binds: &mut Vec<(String, BindValue)>,
)
    ensures
        views(final(conds)@) == views(old(conds)@) + opt_cond(listed(*v), cond@),
        binds_view(final(binds)@) == binds_view(old(binds)@) + opt_bind(
            listed(*v),
            "allowed_kinds"@,
            BindView::TextList(long_kind_names_spec(match *v {
                Some(l) => l@,
                None => seq![],
            })),
        ),
{
    if let Some(l) = v {
        if l.len() > 0 {
            push_cond(conds, cond);
            push_bind(binds, "allowed_kinds", BindValue::TextList(long_kind_names(l)));
        }
    }
    assert(views(conds@) =~= views(old(conds)@) + opt_cond(listed(*v), cond@));
    assert(binds_view(binds@) =~= binds_view(old(binds)@) + opt_bind(
        listed(*v),
        "allowed_kinds"@,
        BindView::TextList(long_kind_names_spec(match *v {
            Some(l) => l@,
            None => seq![],
        })),
    ));
}

/// Appends an allow-list condition over `ReferenceSourceKind` names.
fn push_reference_kinds(
    v: &Option<Vec<ReferenceSourceKind>>,
    cond: &str,
    conds: &mut Vec<String>,
    binds: &mut Vec<(String, BindValue)>,
)
    ensures
        views(final(conds)@) == views(old(conds)@) + opt_cond(listed(*v), cond@),
        binds_view(final(binds)@) == binds_view(old(binds)@) + opt_bind(
            listed(*v),
            "allowed_kinds"@,
            BindView::TextList(reference_kind_names_spec(match *v {
                Some(l) => l@,
                None => seq![],
            })),
        ),
{
    if let Some(l) = v {
        if l.len() > 0 {
            push_cond(conds, cond);
            push_bind(binds, "allowed_kinds", BindValue::TextList(reference_kind_names(l)));
        }
    }
    assert(views(conds@) =~= views(old(conds)@) + opt_cond(listed(*v), cond@));
    assert(binds_view(binds@) =~= binds_view(old(binds)@) + opt_bind(
        listed(*v),
        "allowed_kinds"@,
        BindView::TextList(reference_kind_names_spec(match *v {
            Some(l) => l@,
            None => seq![],
        })),
    ));
}

/// Appends an allow-list condition over `MemoryKind` names.
fn push_memory_kinds(
    v: &Option<Vec<MemoryKind>>,
    cond: &str,
    conds: &mut Vec<String>,
    binds: &mut Vec<(String, BindValue)>,
)
    ensures
        views(final(conds)@) == views(old(conds)@) + opt_cond(listed(*v), cond@),
        binds_view(final(binds)@) == binds_view(old(binds)@) + opt_bind(
            listed(*v),
            "allowed_kinds"@,
            BindView::TextList(memory_kind_names_spec(match *v {
                Some(l) => l@,
                None => seq![],
            })),
        ),
{
    if let Some(l) = v {
        if l.len() > 0 {
            push_cond(conds, cond);
            push_bind(binds, "allowed_kinds", BindValue::TextList(memory_kind_names(l)));
        }
    }
    assert(views(conds@) =~= views(old(conds)@) + opt_cond(listed(*v), cond@));
    assert(binds_view(binds@) =~= binds_view(old(binds)@) + opt_bind(
        listed(*v),
        "allowed_kinds"@,
        BindView::TextList(memory_kind_names_spec(match *v {
            Some(l) => l@,
            None => seq![],
        })),
    ));
}

/// Names of the list in an optional list (empty when absent).
pub open spec fn opt_list<T>(v: Option<Vec<T>>) -> Seq<T> {
    match v {
        Some(l) => l@,
        None => seq![],
    }
}

/// Name of the scope of a filter (empty when absent).
pub open spec fn scope_name(s: Option<MemoryScope>) -> Seq<char> {
    match s {
        Some(x) => x.spec_name(),
        None => seq![],
    }
}

/// Appends the scope condition.
fn push_scope(
    s: Option<MemoryScope>,
    conds: &mut Vec<String>,
    binds: &mut Vec<(String, BindValue)>,
)
    ensures
        views(final(conds)@) == views(old(conds)@) + opt_cond(s is Some, "scope = $scope_v"@),
        binds_view(final(binds)@) == binds_view(old(binds)@) + opt_bind(
            s is Some,
            "scope_v"@,
            BindView::Text(scope_name(s)),
        ),
{
    if let Some(x) = s {
        push_cond(conds, "scope = $scope_v");
        push_bind(binds, "scope_v", BindValue::Text(x.to_string()));
    }
    assert(views(conds@) =~= views(old(conds)@) + opt_cond(s is Some, "scope = $scope_v"@));
    assert(binds_view(binds@) =~= binds_view(old(binds)@) + opt_bind(
        s is Some,
        "scope_v"@,
        BindView::Text(scope_name(s)),
    ));
}

/// The select statement of `table` around a condition list, in the given
/// order, at most `limit` rows.
pub open spec fn select_sql(table: Seq<char>, conds: Seq<Seq<char>>, order: Seq<char>, limit: Option<usize>) -> Seq<char> {
    "SELECT * FROM "@ + table + where_clause(" "@, conds) + " ORDER BY "@ + order + match limit {
        Some(n) => " LIMIT "@ + decimal(n as nat),
        None => seq![],
    }
}

/// Builds the select statement of `table`.
pub(crate) fn assemble(table: &str, conds: &Vec<String>, order: &str, limit: Option<usize>) -> (r: String)
    ensures
        r@ == select_sql(table@, views(conds@), order@, limit),
{
    let mut sql = "SELECT * FROM ".to_owned();
    push_str(&mut sql, table);
    push_where(&mut sql, " ", conds);
    push_str(&mut sql, " ORDER BY ");
    push_str(&mut sql, order);
    if let Some(n) = limit {
        push_str(&mut sql, " LIMIT ");
        push_decimal(&mut sql, n as u64);
    }
    assert(sql@ =~= select_sql(table@, views(conds@), order@, limit));
    sql
}

/// Criteria over short-term memories.
#[derive(Debug, Clone)]
pub struct MemoryShortFilter {
    pub agent_id: Option<String>,
    pub thread_id: Option<String>,
    pub scope: Option<MemoryScope>,
    pub content_kinds: Option<Vec<ShortContentKind>>,
    pub tags_any: Option<Vec<String>>,
    pub embedding_profile_id: Option<String>,
    pub include_expired: bool,
    pub now_ns: Option<u64>,
    pub limit: Option<usize>,
}

/// Conditions of the short-term query, in order: agent, thread, scope,
/// content kinds, any of the tags, embedding profile, and unless expired
/// rows are included, expiry after now.
pub open spec fn short_conditions(f: MemoryShortFilter) -> Seq<Seq<char>> {
    opt_cond(f.agent_id is Some, "agent_id = $agent_id"@) + opt_cond(
        f.thread_id is Some,
        "thread_id = $thread_id_v"@,
    ) + opt_cond(f.scope is Some, "scope = $scope_v"@) + opt_cond(
        listed(f.content_kinds),
        "content_kind IN $allowed_kinds"@,
    ) + opt_cond(listed(f.tags_any), "tags ANYINSIDE $any_tags"@) + opt_cond(
        f.embedding_profile_id is Some,
        "embedding_profile_id = $emb_pid"@,
    ) + opt_cond(!f.include_expired, "expires_at > $now_ns"@)
}

/// Bindings of the short-term query; `now` is the filter's, else the
/// clock's.
pub open spec fn short_binds(f: MemoryShortFilter, clock_ns: u64) -> Seq<(Seq<char>, BindView)> {
    opt_bind(f.agent_id is Some, "agent_id"@, BindView::Text(text_of(f.agent_id))) + opt_bind(
        f.thread_id is Some,
        "thread_id_v"@,
        BindView::Text(text_of(f.thread_id)),
    ) + opt_bind(f.scope is Some, "scope_v"@, BindView::Text(scope_name(f.scope))) + opt_bind(
        listed(f.content_kinds),
        "allowed_kinds"@,
        BindView::TextList(short_kind_names_spec(opt_list(f.content_kinds))),
    ) + opt_bind(listed(f.tags_any), "any_tags"@, BindView::TextList(texts_of(f.tags_any)))
        + opt_bind(
        f.embedding_profile_id is Some,
        "emb_pid"@,
        BindView::Text(text_of(f.embedding_profile_id)),
    ) + opt_bind(
        !f.include_expired,
        "now_ns"@,
        BindView::Int(
            match f.now_ns {
                Some(n) => n,
                None => clock_ns,
            },
        ),
    )
}

/// The statement and bindings that list the short-term memories a filter
/// admits, oldest first; `clock_ns` stands for now when the filter gives
/// none.
pub fn build_short_query_sql(filter: &MemoryShortFilter, clock_ns: u64) -> (r: (String, Vec<(String, BindValue)>))
    ensures
        r.0@ == select_sql("memory_short"@, short_conditions(*filter), "created_at ASC"@, filter.limit),
        binds_view(r.1@) == short_binds(*filter, clock_ns),
{
    let mut conds: Vec<String> = Vec::new();
    let mut binds: Vec<(String, BindValue)> = Vec::new();
    let ghost c0 = views(conds@);
    let ghost b0 = binds_view(binds@);
    push_text_criterion(&filter.agent_id, "agent_id = $agent_id", "agent_id", &mut conds, &mut binds);
    push_text_criterion(&filter.thread_id, "thread_id = $thread_id_v", "thread_id_v", &mut conds, &mut binds);
    push_scope(filter.scope, &mut conds, &mut binds);
    push_short_kinds(&filter.content_kinds, "content_kind IN $allowed_kinds", &mut conds, &mut binds);
    push_list_criterion(&filter.tags_any, "tags ANYINSIDE $any_tags", "any_tags", &mut conds, &mut binds);
    push_text_criterion(&filter.embedding_profile_id, "embedding_profile_id = $emb_pid", "emb_pid", &mut conds, &mut binds);
    if !filter.include_expired {
        push_cond(&mut conds, "expires_at > $now_ns");
        let now = match filter.now_ns {
            Some(n) => n,
            None => clock_ns,
        };
        push_bind(&mut binds, "now_ns", BindValue::Int(now));
    }
    assert(views(conds@) =~= c0 + short_conditions(*filter));
    assert(binds_view(binds@) =~= b0 + short_binds(*filter, clock_ns));
    let sql = assemble("memory_short", &conds, "created_at ASC", filter.limit);
    (sql, binds)
}

/// Criteria over long-term memories.
#[derive(Debug, Clone)]
pub struct MemoryLongFilter {
    pub scope: Option<MemoryScope>,
    pub content_kinds: Option<Vec<LongContentKind>>,
    pub tags_any: Option<Vec<String>>,
    pub include_revoked: bool,
    pub limit: Option<usize>,
}

/// Conditions of the long-term query: scope, content kinds, any of the
/// tags, and unless revoked rows are included, not revoked.
pub open spec fn long_conditions(f: MemoryLongFilter) -> Seq<Seq<char>> {
    opt_cond(f.scope is Some, "scope = $scope_v"@) + opt_cond(
        listed(f.content_kinds),
        "content_kind IN $allowed_kinds"@,
    ) + opt_cond(listed(f.tags_any), "tags ANYINSIDE $any_tags"@) + opt_cond(
        !f.include_revoked,
        "revoked_at IS NONE"@,
    )
}

/// Bindings of the long-term query.
pub open spec fn long_binds(f: MemoryLongFilter) -> Seq<(Seq<char>, BindView)> {
    opt_bind(f.scope is Some, "scope_v"@, BindView::Text(scope_name(f.scope))) + opt_bind(
        listed(f.content_kinds),
        "allowed_kinds"@,
        BindView::TextList(long_kind_names_spec(opt_list(f.content_kinds))),
    ) + opt_bind(listed(f.tags_any), "any_tags"@, BindView::TextList(texts_of(f.tags_any)))
}

/// The statement and bindings that list the long-term memories a filter
/// admits, oldest first.
pub fn build_long_query_sql(filter: &MemoryLongFilter) -> (r: (String, Vec<(String, BindValue)>))
    ensures
        r.0@ == select_sql("memory_long"@, long_conditions(*filter), "created_at ASC"@, filter.limit),
        binds_view(r.1@) == long_binds(*filter),
{
    let mut conds: Vec<String> = Vec::new();
    let mut binds: Vec<(String, BindValue)> = Vec::new();
    let ghost c0 = views(conds@);
    let ghost b0 = binds_view(binds@);
    push_scope(filter.scope, &mut conds, &mut binds);
    push_long_kinds(&filter.content_kinds, "content_kind IN $allowed_kinds", &mut conds, &mut binds);
    push_list_criterion(&filter.tags_any, "tags ANYINSIDE $any_tags", "any_tags", &mut conds, &mut binds);
    if !filter.include_revoked {
        push_cond(&mut conds, "revoked_at IS NONE");
    }
    assert(views(conds@) =~= c0 + long_conditions(*filter));
    assert(binds_view(binds@) =~= b0 + long_binds(*filter));
    let sql = assemble("memory_long", &conds, "created_at ASC", filter.limit);
    (sql, binds)
}

/// Criteria over reference memories.
#[derive(Debug, Clone)]
pub struct MemoryReferenceFilter {
    pub source_kinds: Option<Vec<ReferenceSourceKind>>,
    pub scope: Option<MemoryScope>,
    pub tags_any: Option<Vec<String>>,
    pub embedding_profile_id: Option<String>,
    pub limit: Option<usize>,
}

/// Conditions of the reference query: source kinds, scope, any of the
/// tags, embedding profile.
pub open spec fn reference_conditions(f: MemoryReferenceFilter) -> Seq<Seq<char>> {
    opt_cond(listed(f.source_kinds), "source_kind IN $allowed_kinds"@) + opt_cond(
        f.scope is Some,
        "scope = $scope_v"@,
    ) + opt_cond(listed(f.tags_any), "tags ANYINSIDE $any_tags"@) + opt_cond(
        f.embedding_profile_id is Some,
        "embedding_profile_id = $emb_pid"@,
    )
}

/// Bindings of the reference query.
pub open spec fn reference_binds(f: MemoryReferenceFilter) -> Seq<(Seq<char>, BindView)> {
    opt_bind(
        listed(f.source_kinds),
        "allowed_kinds"@,
        BindView::TextList(reference_kind_names_spec(opt_list(f.source_kinds))),
    ) + opt_bind(f.scope is Some, "scope_v"@, BindView::Text(scope_name(f.scope))) + opt_bind(
        listed(f.tags_any),
        "any_tags"@,
        BindView::TextList(texts_of(f.tags_any)),
    ) + opt_bind(
        f.embedding_profile_id is Some,
        "emb_pid"@,
        BindView::Text(text_of(f.embedding_profile_id)),
    )
}

/// The statement and bindings that list the reference memories a filter
/// admits, oldest first.
pub fn build_reference_query_sql(filter: &MemoryReferenceFilter) -> (r: (String, Vec<(String, BindValue)>))
    ensures
        r.0@ == select_sql(
            "memory_reference"@,
            reference_conditions(*filter),
            "created_at ASC"@,
            filter.limit,
        ),
        binds_view(r.1@) == reference_binds(*filter),
{
    let mut conds: Vec<String> = Vec::new();
    let mut binds: Vec<(String, BindValue)> = Vec::new();
    let ghost c0 = views(conds@);
    let ghost b0 = binds_view(binds@);
    push_reference_kinds(&filter.source_kinds, "source_kind IN $allowed_kinds", &mut conds, &mut binds);
    push_scope(filter.scope, &mut conds, &mut binds);
    push_list_criterion(&filter.tags_any, "tags ANYINSIDE $any_tags", "any_tags", &mut conds, &mut binds);
    push_text_criterion(&filter.embedding_profile_id, "embedding_profile_id = $emb_pid", "emb_pid", &mut conds, &mut binds);
    assert(views(conds@) =~= c0 + reference_conditions(*filter));
    assert(binds_view(binds@) =~= b0 + reference_binds(*filter));
    let sql = assemble("memory_reference", &conds, "created_at ASC", filter.limit);
    (sql, binds)
}

/// Criteria over general memories.
#[derive(Debug, Clone)]
pub struct MemoryFilter {
    pub kinds: Option<Vec<MemoryKind>>,
    pub tags: Option<Vec<String>>,
    pub project_slug: Option<String>,
    pub session_id: Option<String>,
    pub text_match: Option<String>,
    pub limit: Option<usize>,
}

/// Conditions of the memory query: kinds, all of the tags, project,
/// session, and text contained in the lowercased content.
pub open spec fn memory_conditions(f: MemoryFilter) -> Seq<Seq<char>> {
    opt_cond(listed(f.kinds), "kind IN $allowed_kinds"@) + opt_cond(
        listed(f.tags),
        "tags CONTAINSALL $required_tags"@,
    ) + opt_cond(f.project_slug is Some, "project_slug = $slug"@) + opt_cond(
        f.session_id is Some,
        "session_id = $sid"@,
    ) + opt_cond(
        f.text_match is Some,
        "string::contains(string::lowercase(content), $text_lower)"@,
    )
}

/// Bindings of the memory query; the text binds ASCII-lowercased.
pub open spec fn memory_binds(f: MemoryFilter) -> Seq<(Seq<char>, BindView)> {
    opt_bind(
        listed(f.kinds),
        "allowed_kinds"@,
        BindView::TextList(memory_kind_names_spec(opt_list(f.kinds))),
    ) + opt_bind(listed(f.tags), "required_tags"@, BindView::TextList(texts_of(f.tags))) + opt_bind(
        f.project_slug is Some,
        "slug"@,
        BindView::Text(text_of(f.project_slug)),
    ) + opt_bind(f.session_id is Some, "sid"@, BindView::Text(text_of(f.session_id))) + opt_bind(
        f.text_match is Some,
        "text_lower"@,
        BindView::Text(lower(text_of(f.text_match))),
    )
}

/// The statement and bindings that list the memories a filter admits,
/// newest first.
pub fn build_memory_query_sql(filter: &MemoryFilter) -> (r: (String, Vec<(String, BindValue)>))
    ensures
        r.0@ == select_sql("memory"@, memory_conditions(*filter), "created_at DESC"@, filter.limit),
        binds_view(r.1@) == memory_binds(*filter),
{
    let mut conds: Vec<String> = Vec::new();
    let mut binds: Vec<(String, BindValue)> = Vec::new();
    let ghost c0 = views(conds@);
    let ghost b0 = binds_view(binds@);
    push_memory_kinds(&filter.kinds, "kind IN $allowed_kinds", &mut conds, &mut binds);
    push_list_criterion(&filter.tags, "tags CONTAINSALL $required_tags", "required_tags", &mut conds, &mut binds);
    push_text_criterion(&filter.project_slug, "project_slug = $slug", "slug", &mut conds, &mut binds);
    push_text_criterion(&filter.session_id, "session_id = $sid", "sid", &mut conds, &mut binds);
    if let Some(text) = &filter.text_match {
        push_cond(&mut conds, "string::contains(string::lowercase(content), $text_lower)");
        push_bind(&mut binds, "text_lower", BindValue::Text(to_ascii_lowercase(text.as_str())));
    }
    assert(views(conds@) =~= c0 + memory_conditions(*filter));
    assert(binds_view(binds@) =~= b0 + memory_binds(*filter));
    let sql = assemble("memory", &conds, "created_at DESC", filter.limit);
    (sql, binds)
}

/// The id a record is saved under: its own id, trimmed, when that is not
/// blank.
pub open spec fn explicit_id(id: Option<Seq<char>>) -> Option<Seq<char>> {
    match id {
        Some(s) => if trim(s).len() > 0 {
            Some(trim(s))
        } else {
            None
        },
        None => None,
    }
}

/// How a memory record is saved in `table`: an upsert of its explicit id
/// that returns the stored row, else a create under a fresh id; with the id
/// to bind.
pub fn save_statement(table: &str, id: Option<&str>) -> (r: (String, Option<String>))
    ensures
        match explicit_id(
            match id {
                Some(s) => Some(s@),
                None => None,
            },
        ) {
            Some(e) => r.0@ == "UPSERT type::record('"@ + table@ + "', $id) CONTENT $content RETURN AFTER"@
                && (r.1 matches Some(b) && b@ == e),
            None => r.0@ == "CREATE "@ + table@ + " CONTENT $content"@ && r.1 is None,
        },
{
    let explicit: Option<String> = match id {
        Some(s) => {
            let t = trim_string(s);
            if t.as_str().is_empty() {
                None
            } else {
                Some(t)
            }
        },
        None => None,
    };
    match explicit {
        Some(e) => {
            let mut sql = "UPSERT type::record('".to_owned();
            push_str(&mut sql, table);
            push_str(&mut sql, "', $id) CONTENT $content RETURN AFTER");
            (sql, Some(e))
        },
        None => {
            let mut sql = "CREATE ".to_owned();
            push_str(&mut sql, table);
            push_str(&mut sql, " CONTENT $content");
            (sql, None)
        },
    }
}

/// The refusal when a save returns no id.
pub fn save_missing_id(table: &str) -> (r: StoreError)
    ensures
        r matches StoreError::Db(m) && m@ == table@ + " save: no id returned"@,
{
    let mut m = table.to_owned();
    push_str(&mut m, " save: no id returned");
    StoreError::Db(m)
}

/// The refusal when an update of row `id` of `table` found nothing;
/// `detail` follows `not found`.
pub fn row_not_found(table: &str, id: &str, detail: &str) -> (r: StoreError)
    ensures
        r matches StoreError::Other(m) && m@ == table@ + " '"@ + id@ + "' not found"@ + detail@,
{
    let mut m = table.to_owned();
    push_str(&mut m, " '");
    push_str(&mut m, id);
    push_str(&mut m, "' not found");
    push_str(&mut m, detail);
    StoreError::Other(m)
}

/// The long-term rows with a content hash, oldest first, within one scope
/// when given.
pub fn content_hash_query(content_hash: &str, scope: Option<MemoryScope>) -> (r: (
    String,
    Vec<(String, BindValue)>,
))
    ensures
        r.0@ == match scope {
            Some(_) => "SELECT * FROM memory_long WHERE content_hash = $h AND scope = $s ORDER BY created_at ASC"@,
            None => "SELECT * FROM memory_long WHERE content_hash = $h ORDER BY created_at ASC"@,
        },
        binds_view(r.1@) == seq![("h"@, BindView::Text(content_hash@))] + match scope {
            Some(s) => seq![("s"@, BindView::Text(s.spec_name()))],
            None => seq![],
        },
{
    let mut binds: Vec<(String, BindValue)> = Vec::new();
    push_bind(&mut binds, "h", BindValue::Text(content_hash.to_owned()));
    let ghost b1 = binds_view(binds@);
    match scope {
        Some(s) => {
            push_bind(&mut binds, "s", BindValue::Text(s.to_string()));
            (
                "SELECT * FROM memory_long WHERE content_hash = $h AND scope = $s ORDER BY created_at ASC".to_owned(),
                binds,
            )
        },
        None => {
            assert(binds_view(binds@) =~= b1 + seq![]);
            (
                "SELECT * FROM memory_long WHERE content_hash = $h ORDER BY created_at ASC".to_owned(),
                binds,
            )
        },
    }
}

} // verus!
