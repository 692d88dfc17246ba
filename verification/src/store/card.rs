//! Agent cards: the listing query and the refusal for an unknown card.
use vstd::prelude::*;

use super::error::StoreError;
use super::memory_sql::{assemble, select_sql};
use super::sql::{
    binds_view, listed, opt_bind, opt_cond, push_list_criterion, push_text_criterion, text_of,
    texts_of, BindValue, BindView,
};
use crate::text::{push_str, views};

verus! {

/// Criteria of an agent listing. Statuses are given by the names the cards
/// store them under.
#[derive(Debug, Clone)]
pub struct AgentCardFilter {
    pub statuses: Option<Vec<String>>,
    pub project_ref: Option<String>,
    pub team_ref: Option<String>,
    pub limit: Option<usize>,
}

/// Conditions of the listing: a listed status, the project, the team.
pub open spec fn agent_conditions(f: AgentCardFilter) -> Seq<Seq<char>> {
    opt_cond(listed(f.statuses), "status IN $statuses"@) + opt_cond(
        f.project_ref is Some,
        "project_refs CONTAINS $project_ref"@,
    ) + opt_cond(f.team_ref is Some, "team_refs CONTAINS $team_ref"@)
}

/// Bindings of the listing.
pub open spec fn agent_binds(f: AgentCardFilter) -> Seq<(Seq<char>, BindView)> {
    opt_bind(listed(f.statuses), "statuses"@, BindView::TextList(texts_of(f.statuses))) + opt_bind(
        f.project_ref is Some,
        "project_ref"@,
        BindView::Text(text_of(f.project_ref)),
    ) + opt_bind(f.team_ref is Some, "team_ref"@, BindView::Text(text_of(f.team_ref)))
}

/// The statement and bindings that list agent cards, oldest first.
pub fn agent_query_sql(filter: &AgentCardFilter) -> (r: (String, Vec<(String, BindValue)>))
    ensures
        r.0@ == select_sql("agent_card"@, agent_conditions(*filter), "created_at ASC"@, filter.limit),
        binds_view(r.1@) == agent_binds(*filter),
{
    let mut conds: Vec<String> = Vec::new();
    let mut binds: Vec<(String, BindValue)> = Vec::new();
    let ghost c0 = views(conds@);
    let ghost b0 = binds_view(binds@);
    push_list_criterion(&filter.statuses, "status IN $statuses", "statuses", &mut conds, &mut binds);
    push_text_criterion(
        &filter.project_ref,
        "project_refs CONTAINS $project_ref",
        "project_ref",
        &mut conds,
        &mut binds,
    );
    push_text_criterion(&filter.team_ref, "team_refs CONTAINS $team_ref", "team_ref", &mut conds, &mut binds);
    assert(views(conds@) =~= c0 + agent_conditions(*filter));
    assert(binds_view(binds@) =~= b0 + agent_binds(*filter));
    let sql = assemble("agent_card", &conds, "created_at ASC", filter.limit);
    (sql, binds)
}

/// The refusal for an agent card that does not exist.
pub fn unknown_agent(id: &str) -> (r: StoreError)
    ensures
        r matches StoreError::Other(m) && m@ == "agent card '"@ + id@ + "' does not exist"@,
{
    let mut m = "agent card '".to_owned();
    push_str(&mut m, id);
    push_str(&mut m, "' does not exist");
    StoreError::Other(m)
}

} // verus!
