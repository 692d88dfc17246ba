//! The librarian's catalog of indexed nodes: the lookup query, the version a
//! re-indexed node takes, and the statement that relates two nodes.
use vstd::prelude::*;

use super::memory_sql::{assemble, select_sql};
use super::sql::{
    binds_view, listed, opt_bind, opt_cond, push_bind, push_cond, push_list_criterion,
    push_text_criterion, text_of, texts_of, BindValue, BindView,
};
use crate::text::{lower, push_str, to_ascii_lowercase, views};

verus! {

/// Criteria of a catalog lookup. Kinds are given by the names the catalog
/// stores them under.
#[derive(Debug, Clone)]
pub struct LibrarianFilter {
    pub include_deprecated: bool,
    pub kinds: Option<Vec<String>>,
    pub tags: Option<Vec<String>>,
    pub project_slug: Option<String>,
    pub text_match: Option<String>,
    pub stale_before: Option<u64>,
    pub parent_id: Option<String>,
    pub limit: Option<usize>,
}

/// Conditions of the lookup, in order: not deprecated (unless deprecated
/// nodes are included), kinds, all of the tags, project, text in the
/// lowercased label or locator, not read since the threshold, parent.
pub open spec fn catalog_conditions(f: LibrarianFilter) -> Seq<Seq<char>> {
    opt_cond(!f.include_deprecated, "deprecated_at IS NONE"@) + opt_cond(
        listed(f.kinds),
        "kind IN $allowed_kinds"@,
    ) + opt_cond(listed(f.tags), "tags CONTAINSALL $required_tags"@) + opt_cond(
        f.project_slug is Some,
        "project_slug = $slug"@,
    ) + opt_cond(
        f.text_match is Some,
        "(string::contains(string::lowercase(label), $text_lower) OR string::contains(string::lowercase(locator), $text_lower))"@,
    ) + opt_cond(
        f.stale_before is Some,
        "(last_read_at IS NONE OR last_read_at < $stale_threshold)"@,
    ) + opt_cond(f.parent_id is Some, "parent_id = $parent_id"@)
}

/// Bindings of the lookup; the text binds ASCII-lowercased.
pub open spec fn catalog_binds(f: LibrarianFilter) -> Seq<(Seq<char>, BindView)> {
    opt_bind(listed(f.kinds), "allowed_kinds"@, BindView::TextList(texts_of(f.kinds))) + opt_bind(
        listed(f.tags),
        "required_tags"@,
        BindView::TextList(texts_of(f.tags)),
    ) + opt_bind(f.project_slug is Some, "slug"@, BindView::Text(text_of(f.project_slug)))
        + opt_bind(f.text_match is Some, "text_lower"@, BindView::Text(lower(text_of(f.text_match))))
        + opt_bind(
        f.stale_before is Some,
        "stale_threshold"@,
        BindView::Int(
            match f.stale_before {
                Some(t) => t,
                None => 0,
            },
        ),
    ) + opt_bind(f.parent_id is Some, "parent_id"@, BindView::Text(text_of(f.parent_id)))
}

/// The statement and bindings of a catalog lookup, most recently updated
/// first.
pub fn build_query_sql(filter: &LibrarianFilter) -> (r: (String, Vec<(String, BindValue)>))
    ensures
        r.0@ == select_sql(
            "catalog_node"@,
            catalog_conditions(*filter),
            "updated_at DESC"@,
            filter.limit,
        ),
        binds_view(r.1@) == catalog_binds(*filter),
{
    let mut conds: Vec<String> = Vec::new();
    let mut binds: Vec<(String, BindValue)> = Vec::new();
    let ghost f = *filter;
    if !filter.include_deprecated {
        push_cond(&mut conds, "deprecated_at IS NONE");
    }
    assert(views(conds@) =~= opt_cond(!f.include_deprecated, "deprecated_at IS NONE"@));
    assert(binds_view(binds@) =~= Seq::<(Seq<char>, BindView)>::empty());
    push_list_criterion(
        &filter.kinds,
        "kind IN $allowed_kinds",
        "allowed_kinds",
        &mut conds,
        &mut binds,
    );
    push_list_criterion(
        &filter.tags,
        "tags CONTAINSALL $required_tags",
        "required_tags",
        &mut conds,
        &mut binds,
    );
    push_text_criterion(&filter.project_slug, "project_slug = $slug", "slug", &mut conds, &mut binds);
    let ghost c3 = views(conds@);
    let ghost b3 = binds_view(binds@);
    if let Some(text) = &filter.text_match {
        push_cond(
            &mut conds,
            "(string::contains(string::lowercase(label), $text_lower) OR string::contains(string::lowercase(locator), $text_lower))",
        );
        push_bind(&mut binds, "text_lower", BindValue::Text(to_ascii_lowercase(text.as_str())));
    }
    assert(views(conds@) =~= c3 + opt_cond(
        f.text_match is Some,
        "(string::contains(string::lowercase(label), $text_lower) OR string::contains(string::lowercase(locator), $text_lower))"@,
    ));
    assert(binds_view(binds@) =~= b3 + opt_bind(
        f.text_match is Some,
        "text_lower"@,
        BindView::Text(lower(text_of(f.text_match))),
    ));
    let ghost c4 = views(conds@);
    let ghost b4 = binds_view(binds@);
    if let Some(threshold) = filter.stale_before {
        push_cond(&mut conds, "(last_read_at IS NONE OR last_read_at < $stale_threshold)");
        push_bind(&mut binds, "stale_threshold", BindValue::Int(threshold));
    }
    assert(views(conds@) =~= c4 + opt_cond(
        f.stale_before is Some,
        "(last_read_at IS NONE OR last_read_at < $stale_threshold)"@,
    ));
    assert(binds_view(binds@) =~= b4 + opt_bind(
        f.stale_before is Some,
        "stale_threshold"@,
        BindView::Int(
            match f.stale_before {
                Some(t) => t,
                None => 0,
            },
        ),
    ));
    push_text_criterion(&filter.parent_id, "parent_id = $parent_id", "parent_id", &mut conds, &mut binds);
    assert(views(conds@) =~= catalog_conditions(f));
    assert(binds_view(binds@) =~= catalog_binds(f));
    let sql = assemble("catalog_node", &conds, "updated_at DESC", filter.limit);
    (sql, binds)
}

/// The version a stored version field stands for: the field when it holds
/// an unsigned integer (cut to 32 bits), else 1.
pub open spec fn stored_version(field: Option<u64>) -> u32 {
    match field {
        Some(v) => v as u32,
        None => 1,
    }
}

/// The version a node is indexed under. When an active node with the same
/// locator exists (`superseded` holds its version field) the new node takes
/// the next version; otherwise it keeps the requested version, 0 meaning 1.
pub fn indexed_version(superseded: Option<Option<u64>>, requested: u32) -> (r: u32)
    requires
        superseded matches Some(field) ==> stored_version(field) < u32::MAX,
    ensures
        r == match superseded {
            Some(field) => (stored_version(field) + 1) as u32,
            None => if requested == 0 {
                1
            } else {
                requested
            },
        },
{
    let mut version = requested;
    if let Some(field) = superseded {
        let old: u32 = match field {
            Some(v) => #[verifier::truncate] (v as u32),
            None => 1,
        };
        version = old + 1;
    }
    if version == 0 {
        version = 1;
    }
    version
}

/// The statement that relates node `from` to node `to` through a catalog
/// edge, and the creation time it records: the edge's own, or `now` when
/// that is 0.
pub fn relate_edge(from: &str, to: &str, created_at: u64, now: u64) -> (r: (String, u64))
    ensures
        r.0@ == "RELATE catalog_node:`"@ + from@ + "`->catalog_edge->catalog_node:`"@ + to@
            + "` SET kind = $kind, created_at = $created_at"@,
        r.1 == if created_at == 0 {
            now
        } else {
            created_at
        },
{
    let mut sql = "RELATE catalog_node:`".to_owned();
    push_str(&mut sql, from);
    push_str(&mut sql, "`->catalog_edge->catalog_node:`");
    push_str(&mut sql, to);
    push_str(&mut sql, "` SET kind = $kind, created_at = $created_at");
    let at = if created_at == 0 {
        now
    } else {
        created_at
    };
    (sql, at)
}

} // verus!
