//! Bookkeeping over agent memory: reaping expired short-term rows, and
//! collapsing long-term rows whose content hash collides within a scope
//! (the highest-confidence row stays; ties go to the oldest).
//!
//! The store runs the statements and deletions; the decisions are here.
use vstd::prelude::*;

use super::error::StoreError;
use super::sql::{binds_view, push_bind, BindValue, BindView};
use crate::text::str_eq;
use crate::types::memory::MemoryScope;

verus! {

/// Which expired short-term rows to reap.
#[derive(Debug, Clone)]
pub struct SweepShortScope {
    pub agent_id: Option<String>,
    pub now_ns: Option<u64>,
    pub apply: bool,
}

impl Default for SweepShortScope {
    fn default() -> (r: SweepShortScope)
        ensures
            r.agent_id is None && r.now_ns is None && !r.apply,
    {
        SweepShortScope { agent_id: None, now_ns: None, apply: false }
    }
}

/// What a sweep found and removed.
#[derive(Debug, Clone)]
pub struct SweepReport {
    pub examined: usize,
    pub expired: usize,
    pub deleted_ids: Vec<String>,
}

/// Which long-term rows to deduplicate.
#[derive(Debug, Clone)]
pub struct DedupLongScope {
    pub scope: Option<MemoryScope>,
    pub apply: bool,
}

impl Default for DedupLongScope {
    fn default() -> (r: DedupLongScope)
        ensures
            r.scope is None && !r.apply,
    {
        DedupLongScope { scope: None, apply: false }
    }
}

/// What a deduplication found and removed.
#[derive(Debug, Clone)]
pub struct DedupReport {
    pub examined: usize,
    pub groups: usize,
    pub redundant: usize,
    pub removed_ids: Vec<String>,
}

/// What deduplication reads of a long-term row. `confidence_rank` orders
/// rows as their confidence does (higher is more confident).
#[derive(Debug, Clone)]
pub struct DedupCandidate {
    pub id: Option<String>,
    pub content_hash: String,
    pub scope: MemoryScope,
    pub confidence_rank: u32,
    pub created_at: u64,
}

/// The instant a sweep compares expiry against: the scope's, else the
/// clock's.
pub fn sweep_now(scope: &SweepShortScope, clock_ns: u64) -> (r: u64)
    ensures
        r == match scope.now_ns {
            Some(n) => n,
            None => clock_ns,
        },
{
    match scope.now_ns {
        Some(n) => n,
        None => clock_ns,
    }
}

/// The statement that lists the expired rows (`expires_at` strictly before
/// `now`), oldest first; narrowed to one
/// agent when the scope names one.
pub open spec fn sweep_select_sql(scope: SweepShortScope) -> Seq<char> {
    match scope.agent_id {
        Some(_) => "SELECT * FROM memory_short WHERE expires_at < $now AND agent_id = $agent ORDER BY created_at ASC"@,
        None => "SELECT * FROM memory_short WHERE expires_at < $now ORDER BY created_at ASC"@,
    }
}

/// Bindings of the expired-row statement: `now`, then the agent.
pub open spec fn sweep_select_binds(scope: SweepShortScope, now: u64) -> Seq<(Seq<char>, BindView)> {
    match scope.agent_id {
        Some(a) => seq![("now"@, BindView::Int(now)), ("agent"@, BindView::Text(a@))],
        None => seq![("now"@, BindView::Int(now))],
    }
}

/// The statement and bindings that list the rows a sweep at `now` reaps.
pub fn sweep_select(scope: &SweepShortScope, now: u64) -> (r: (String, Vec<(String, BindValue)>))
    ensures
        r.0@ == sweep_select_sql(*scope),
        binds_view(r.1@) == sweep_select_binds(*scope, now),
{
    let mut binds: Vec<(String, BindValue)> = Vec::new();
    push_bind(&mut binds, "now", BindValue::Int(now));
    match &scope.agent_id {
        Some(agent) => {
            push_bind(&mut binds, "agent", BindValue::Text(agent.clone()));
            (
                "SELECT * FROM memory_short WHERE expires_at < $now AND agent_id = $agent ORDER BY created_at ASC".to_owned(),
                binds,
            )
        },
        None => (
            "SELECT * FROM memory_short WHERE expires_at < $now ORDER BY created_at ASC".to_owned(),
            binds,
        ),
    }
}

/// The statement that counts the rows a sweep examines.
pub open spec fn sweep_count_sql(scope: SweepShortScope) -> Seq<char> {
    match scope.agent_id {
        Some(_) => "SELECT count() AS total FROM memory_short WHERE agent_id = $agent GROUP ALL"@,
        None => "SELECT count() AS total FROM memory_short GROUP ALL"@,
    }
}

/// The statement and bindings that count the rows a sweep examines.
pub fn sweep_count(scope: &SweepShortScope) -> (r: (String, Vec<(String, BindValue)>))
    ensures
        r.0@ == sweep_count_sql(*scope),
        binds_view(r.1@) == match scope.agent_id {
            Some(a) => seq![("agent"@, BindView::Text(a@))],
            None => seq![],
        },
{
    let mut binds: Vec<(String, BindValue)> = Vec::new();
    match &scope.agent_id {
        Some(agent) => {
            push_bind(&mut binds, "agent", BindValue::Text(agent.clone()));
            (
                "SELECT count() AS total FROM memory_short WHERE agent_id = $agent GROUP ALL".to_owned(),
                binds,
            )
        },
        None => {
            assert(binds_view(binds@) =~= seq![]);
            ("SELECT count() AS total FROM memory_short GROUP ALL".to_owned(), binds)
        },
    }
}

/// The ids of the expired rows up to the first one without an id.
pub open spec fn ids_before_missing(ids: Seq<Option<String>>) -> Seq<Seq<char>>
    decreases ids.len(),
{
    if ids.len() == 0 {
        seq![]
    } else {
        let p = ids_before_missing(ids.drop_last());
        if p.len() == ids.len() - 1 && ids.last() is Some {
            p.push(ids.last()->0@)
        } else {
            p
        }
    }
}

/// The rows to delete, in order: those before the first row without an id;
/// the flag tells whether such a row stopped the sweep.
pub fn sweep_deletions(ids: &Vec<Option<String>>) -> (r: (Vec<String>, bool))
    ensures
        crate::text::views(r.0@) == ids_before_missing(ids@),
        r.1 == exists|i: int| 0 <= i < ids@.len() && #[trigger] ids@[i] is None,
        !r.1 ==> r.0@.len() == ids@.len(),
{
    let mut out: Vec<String> = Vec::new();
    let mut i: usize = 0;
    while i < ids.len()
        invariant
            i <= ids.len(),
            out@.len() == i,
            crate::text::views(out@) == ids_before_missing(ids@.take(i as int)),
            forall|j: int| 0 <= j < i ==> #[trigger] ids@[j] is Some,
        decreases ids.len() - i,
    {
        proof {
            assert(ids@.take(i + 1).drop_last() =~= ids@.take(i as int));
        }
        match &ids[i] {
            Some(id) => {
                let ghost before = out@;
                out.push(id.clone());
                assert(crate::text::views(out@) =~= crate::text::views(before).push(id@));
            },
            None => {
                proof {
                    lemma_ids_stop(ids@, i as int);
                }
                return (out, true);
            },
        }
        i += 1;
    }
    proof {
        assert(ids@.take(ids@.len() as int) =~= ids@);
    }
    (out, false)
}

/// Past the first missing id, no later id is taken.
proof fn lemma_ids_stop(ids: Seq<Option<String>>, i: int)
    requires
        0 <= i < ids.len(),
        ids[i] is None,
        ids_before_missing(ids.take(i)).len() == i,
    ensures
        ids_before_missing(ids) == ids_before_missing(ids.take(i)),
    decreases ids.len() - i,
{
    lemma_ids_stop_at(ids, i, ids.len() as int);
    assert(ids.take(ids.len() as int) =~= ids);
}

/// Every prefix longer than `i` takes the same ids as the first `i`.
proof fn lemma_ids_stop_at(ids: Seq<Option<String>>, i: int, n: int)
    requires
        0 <= i < n <= ids.len(),
        ids[i] is None,
        ids_before_missing(ids.take(i)).len() == i,
    ensures
        ids_before_missing(ids.take(n)) == ids_before_missing(ids.take(i)),
    decreases n - i,
{
    if n == i + 1 {
        assert(ids.take(n).drop_last() =~= ids.take(i));
    } else {
        lemma_ids_stop_at(ids, i, n - 1);
        assert(ids.take(n).drop_last() =~= ids.take(n - 1));
        assert(ids_before_missing(ids.take(n - 1)).len() <= i) by {
            lemma_ids_before_missing_len(ids.take(n - 1));
        }
    }
}

/// No more ids are taken than there are rows.
proof fn lemma_ids_before_missing_len(ids: Seq<Option<String>>)
    ensures
        ids_before_missing(ids).len() <= ids.len(),
    decreases ids.len(),
{
    if ids.len() > 0 {
        lemma_ids_before_missing_len(ids.drop_last());
    }
}

/// The report of a sweep: every row counted (0 when the count was not
/// read), the expired rows, and the ids deleted.
pub fn sweep_report(total: Option<u64>, expired: usize, deleted_ids: Vec<String>) -> (r:
    SweepReport)
    ensures
        r.examined == match total {
            Some(t) => t as usize,
            None => 0usize,
        },
        r.expired == expired,
        r.deleted_ids == deleted_ids,
{
    let examined: usize = match total {
        Some(t) => #[verifier::truncate] (t as usize),
        None => 0,
    };
    SweepReport { examined, expired, deleted_ids }
}

/// The statement that lists the live long-term rows, oldest first; narrowed
/// to one scope when given.
pub open spec fn dedupe_select_sql(scope: Option<MemoryScope>) -> Seq<char> {
    match scope {
        Some(_) => "SELECT * FROM memory_long WHERE scope = $scope_v AND revoked_at IS NONE ORDER BY created_at ASC"@,
        None => "SELECT * FROM memory_long WHERE revoked_at IS NONE ORDER BY created_at ASC"@,
    }
}

/// The statement and bindings that list the rows deduplication examines.
pub fn dedupe_select(scope: Option<MemoryScope>) -> (r: (String, Vec<(String, BindValue)>))
    ensures
        r.0@ == dedupe_select_sql(scope),
        binds_view(r.1@) == match scope {
            Some(s) => seq![("scope_v"@, BindView::Text(s.spec_name()))],
            None => seq![],
        },
{
    let mut binds: Vec<(String, BindValue)> = Vec::new();
    match scope {
        Some(s) => {
            push_bind(&mut binds, "scope_v", BindValue::Text(s.to_string()));
            (
                "SELECT * FROM memory_long WHERE scope = $scope_v AND revoked_at IS NONE ORDER BY created_at ASC".to_owned(),
                binds,
            )
        },
        None => {
            assert(binds_view(binds@) =~= seq![]);
            (
                "SELECT * FROM memory_long WHERE revoked_at IS NONE ORDER BY created_at ASC".to_owned(),
                binds,
            )
        },
    }
}

/// Two rows collide: same content hash and same scope.
pub open spec fn same_group(a: DedupCandidate, b: DedupCandidate) -> bool {
    a.content_hash@ == b.content_hash@ && a.scope == b.scope
}

/// `c[i]` is the first row of its group.
pub open spec fn opens_group(c: Seq<DedupCandidate>, i: int) -> bool {
    forall|j: int| 0 <= j < i ==> !same_group(#[trigger] c[j], c[i])
}

/// Positions, in order, of the rows among the first `n` that collide with
/// `c[i]`.
pub open spec fn members(c: Seq<DedupCandidate>, i: int, n: int) -> Seq<int>
    decreases n,
{
    if n <= 0 {
        seq![]
    } else {
        let p = members(c, i, n - 1);
        if same_group(c[n - 1], c[i]) {
            p.push(n - 1)
        } else {
            p
        }
    }
}

/// `a` outranks `b`: more confident, or as confident and older.
pub open spec fn outranks(a: DedupCandidate, b: DedupCandidate) -> bool {
    a.confidence_rank > b.confidence_rank || (a.confidence_rank == b.confidence_rank
        && a.created_at < b.created_at)
}

/// The row a group keeps: the first, in stored order, that no member
/// outranks.
pub open spec fn keeper(c: Seq<DedupCandidate>, ms: Seq<int>) -> int
    decreases ms.len(),
{
    if ms.len() <= 1 {
        ms[0]
    } else {
        let k = keeper(c, ms.drop_last());
        if outranks(c[ms.last()], c[k]) {
            ms.last()
        } else {
            k
        }
    }
}

/// Ids of the members other than the keeper whose id differs from the
/// keeper's, in stored order.
pub open spec fn group_removed(c: Seq<DedupCandidate>, ms: Seq<int>, keep: int) -> Seq<Seq<char>>
    decreases ms.len(),
{
    if ms.len() == 0 {
        seq![]
    } else {
        let p = group_removed(c, ms.drop_last(), keep);
        let m = ms.last();
        if m != keep && c[m].id->0@ != c[keep].id->0@ {
            p.push(c[m].id->0@)
        } else {
            p
        }
    }
}

/// Every member has an id.
pub open spec fn all_have_ids(c: Seq<DedupCandidate>, ms: Seq<int>) -> bool {
    forall|k: int| 0 <= k < ms.len() ==> (#[trigger] c[ms[k]]).id is Some
}

/// `c[i]` opens a group with at least two rows.
pub open spec fn dup_group_at(c: Seq<DedupCandidate>, i: int) -> bool {
    opens_group(c, i) && members(c, i, c.len() as int).len() >= 2
}

/// Number of colliding groups that open among the first `n` rows.
pub open spec fn dedup_groups(c: Seq<DedupCandidate>, n: int) -> nat
    decreases n,
{
    if n <= 0 {
        0
    } else {
        dedup_groups(c, n - 1) + if dup_group_at(c, n - 1) {
            1nat
        } else {
            0nat
        }
    }
}

/// Ids removed from the colliding groups that open among the first `n`
/// rows, group by group.
pub open spec fn dedup_removed(c: Seq<DedupCandidate>, n: int) -> Seq<Seq<char>>
    decreases n,
{
    if n <= 0 {
        seq![]
    } else {
        dedup_removed(c, n - 1) + if dup_group_at(c, n - 1) {
            let ms = members(c, n - 1, c.len() as int);
            group_removed(c, ms, keeper(c, ms))
        } else {
            seq![]
        }
    }
}

/// Some colliding group opening among the first `n` rows has a row
/// without an id.
pub open spec fn dedup_missing_id(c: Seq<DedupCandidate>, n: int) -> bool
    decreases n,
{
    if n <= 0 {
        false
    } else {
        dedup_missing_id(c, n - 1) || (dup_group_at(c, n - 1) && !all_have_ids(
            c,
            members(c, n - 1, c.len() as int),
        ))
    }
}

/// Whether two rows collide.
fn collide(a: &DedupCandidate, b: &DedupCandidate) -> (r: bool)
    ensures
        r == same_group(*a, *b),
{
    a.scope == b.scope && str_eq(a.content_hash.as_str(), b.content_hash.as_str())
}

/// Whether `c[i]` is the first row of its group.
fn first_of_group(c: &Vec<DedupCandidate>, i: usize) -> (r: bool)
    requires
        i < c@.len(),
    ensures
        r == opens_group(c@, i as int),
{
    let mut j: usize = 0;
    while j < i
        invariant
            j <= i < c@.len(),
            forall|k: int| 0 <= k < j ==> !same_group(#[trigger] c@[k], c@[i as int]),
        decreases i - j,
    {
        if collide(&c[j], &c[i]) {
            return false;
        }
        j += 1;
    }
    true
}

/// Positions of the rows colliding with `c[i]`.
fn group_members(c: &Vec<DedupCandidate>, i: usize) -> (r: Vec<usize>)
    requires
        i < c@.len(),
    ensures
        r@.map_values(|x: usize| x as int) == members(c@, i as int, c@.len() as int),
        forall|k: int| 0 <= k < r@.len() ==> #[trigger] r@[k] < c@.len(),
{
    let mut r: Vec<usize> = Vec::new();
    let mut n: usize = 0;
    while n < c.len()
        invariant
            n <= c@.len(),
            i < c@.len(),
            r@.map_values(|x: usize| x as int) == members(c@, i as int, n as int),
            forall|k: int| 0 <= k < r@.len() ==> #[trigger] r@[k] < n,
        decreases c@.len() - n,
    {
        if collide(&c[n], &c[i]) {
            let ghost before = r@;
            r.push(n);
            assert(r@.map_values(|x: usize| x as int) =~= before.map_values(|x: usize| x as int).push(
                n as int,
            ));
        }
        n += 1;
    }
    r
}

/// Whether every listed row has an id.
fn members_have_ids(c: &Vec<DedupCandidate>, ms: &Vec<usize>) -> (r: bool)
    requires
        forall|k: int| 0 <= k < ms@.len() ==> #[trigger] ms@[k] < c@.len(),
    ensures
        r == all_have_ids(c@, ms@.map_values(|x: usize| x as int)),
{
    let ghost mi = ms@.map_values(|x: usize| x as int);
    let mut k: usize = 0;
    while k < ms.len()
        invariant
            k <= ms@.len(),
            mi == ms@.map_values(|x: usize| x as int),
            forall|q: int| 0 <= q < ms@.len() ==> #[trigger] ms@[q] < c@.len(),
            forall|q: int| 0 <= q < k ==> (#[trigger] c@[mi[q]]).id is Some,
        decreases ms@.len() - k,
    {
        if c[ms[k]].id.is_none() {
            assert(c@[mi[k as int]].id is None);
            return false;
        }
        k += 1;
    }
    true
}

/// The position the group keeps.
fn pick_keeper(c: &Vec<DedupCandidate>, ms: &Vec<usize>) -> (r: usize)
    requires
        ms@.len() >= 1,
        forall|k: int| 0 <= k < ms@.len() ==> #[trigger] ms@[k] < c@.len(),
    ensures
        r as int == keeper(c@, ms@.map_values(|x: usize| x as int)),
        r < c@.len(),
{
    let ghost mi = ms@.map_values(|x: usize| x as int);
    let mut best = ms[0];
    let mut k: usize = 1;
    proof {
        assert(mi.take(1).len() == 1);
    }
    while k < ms.len()
        invariant
            1 <= k <= ms@.len(),
            mi == ms@.map_values(|x: usize| x as int),
            forall|q: int| 0 <= q < ms@.len() ==> #[trigger] ms@[q] < c@.len(),
            best < c@.len(),
            best as int == keeper(c@, mi.take(k as int)),
        decreases ms@.len() - k,
    {
        let m = ms[k];
        proof {
            assert(mi.take(k + 1).drop_last() =~= mi.take(k as int));
        }
        let a = &c[m];
        let b = &c[best];
        if a.confidence_rank > b.confidence_rank || (a.confidence_rank == b.confidence_rank
            && a.created_at < b.created_at) {
            best = m;
        }
        k += 1;
    }
    proof {
        assert(mi.take(ms@.len() as int) =~= mi);
    }
    best
}

/// Ids of the members removed in favour of `keep`.
fn removed_of_group(c: &Vec<DedupCandidate>, ms: &Vec<usize>, keep: usize) -> (r: Vec<String>)
    requires
        forall|k: int| 0 <= k < ms@.len() ==> #[trigger] ms@[k] < c@.len(),
        all_have_ids(c@, ms@.map_values(|x: usize| x as int)),
        keep < c@.len(),
        c@[keep as int].id is Some,
    ensures
        crate::text::views(r@) == group_removed(c@, ms@.map_values(|x: usize| x as int), keep as int),
{
    let ghost mi = ms@.map_values(|x: usize| x as int);
    let keep_id = match &c[keep].id {
        Some(x) => x,
        None => {
            return Vec::new();
        },
    };
    let mut r: Vec<String> = Vec::new();
    let mut k: usize = 0;
    while k < ms.len()
        invariant
            k <= ms@.len(),
            mi == ms@.map_values(|x: usize| x as int),
            forall|q: int| 0 <= q < ms@.len() ==> #[trigger] ms@[q] < c@.len(),
            all_have_ids(c@, mi),
            keep < c@.len(),
            c@[keep as int].id == Some(*keep_id),
            crate::text::views(r@) == group_removed(c@, mi.take(k as int), keep as int),
        decreases ms@.len() - k,
    {
        let m = ms[k];
        proof {
            assert(mi.take(k + 1).drop_last() =~= mi.take(k as int));
            assert(mi.take(k + 1).last() == m as int);
            assert(c@[mi[k as int]].id is Some);
        }
        if m != keep {
            match &c[m].id {
                Some(id) => {
                    if !str_eq(id.as_str(), keep_id.as_str()) {
                        let ghost before = r@;
                        r.push(id.clone());
                        assert(crate::text::views(r@) =~= crate::text::views(before).push(id@));
                    }
                },
                None => {},
            }
        }
        k += 1;
    }
    proof {
        assert(mi.take(ms@.len() as int) =~= mi);
    }
    r
}

/// Decides a deduplication over the live rows in stored order: rows
/// collide when hash and scope agree; each colliding group keeps the row
/// no other outranks (the first such), and the others whose id differs
/// from the keeper's are redundant. Refused when a colliding group has a
/// row without an id. The removed ids, group by group in order of first
/// appearance, are the rows to delete when `apply` holds; a dry run
/// removes none.
pub fn plan_dedupe_long(candidates: &Vec<DedupCandidate>, apply: bool) -> (r: Result<
    DedupReport,
    StoreError,
>)
    ensures
        r is Err <==> dedup_missing_id(candidates@, candidates@.len() as int),
        r matches Err(e) ==> e matches StoreError::Db(m) && m@ == "dedupe_long: row missing id"@,
        r matches Ok(rep) ==> {
            &&& rep.examined == candidates@.len()
            &&& rep.groups == dedup_groups(candidates@, candidates@.len() as int)
            &&& rep.redundant == dedup_removed(candidates@, candidates@.len() as int).len()
            &&& crate::text::views(rep.removed_ids@) == if apply {
                dedup_removed(candidates@, candidates@.len() as int)
            } else {
                seq![]
            }
        },
{
    let ghost c = candidates@;
    let mut groups: usize = 0;
    let mut removed: Vec<String> = Vec::new();
    let mut i: usize = 0;
    while i < candidates.len()
        invariant
            i <= c.len(),
            c == candidates@,
            groups == dedup_groups(c, i as int),
            groups <= i,
            crate::text::views(removed@) == dedup_removed(c, i as int),
            !dedup_missing_id(c, i as int),
        decreases c.len() - i,
    {
        if first_of_group(candidates, i) {
            let ms = group_members(candidates, i);
            if ms.len() >= 2 {
                if !members_have_ids(candidates, &ms) {
                    proof {
                        lemma_missing_stays(c, i as int + 1, c.len() as int);
                    }
                    let e = StoreError::Db("dedupe_long: row missing id".to_owned());
                    return Err(e);
                }
                let keep = pick_keeper(candidates, &ms);
                proof {
                    let mi = ms@.map_values(|x: usize| x as int);
                    lemma_keeper_in(c, mi);
                    let q = choose|q: int| 0 <= q < mi.len() && mi[q] == keep as int;
                    assert(c[mi[q]].id is Some);
                }
                let mut more = removed_of_group(candidates, &ms, keep);
                let ghost before = removed@;
                let ghost mv = more@;
                removed.append(&mut more);
                proof {
                    assert(crate::text::views(removed@) =~= crate::text::views(before)
                        + crate::text::views(mv));
                }
                groups += 1;
            }
        }
        i += 1;
    }
    let redundant = removed.len();
    let removed_ids = if apply {
        removed
    } else {
        Vec::new()
    };
    Ok(DedupReport { examined: candidates.len(), groups, redundant, removed_ids })
}

/// Once a colliding group without ids is seen, it stays seen.
proof fn lemma_missing_stays(c: Seq<DedupCandidate>, i: int, n: int)
    requires
        0 <= i <= n,
        dedup_missing_id(c, i),
    ensures
        dedup_missing_id(c, n),
    decreases n - i,
{
    if i < n {
        lemma_missing_stays(c, i, n - 1);
    }
}

/// The keeper is one of the members.
proof fn lemma_keeper_in(c: Seq<DedupCandidate>, ms: Seq<int>)
    requires
        ms.len() >= 1,
    ensures
        exists|q: int| 0 <= q < ms.len() && ms[q] == keeper(c, ms),
    decreases ms.len(),
{
    if ms.len() == 1 {
        assert(ms[0] == keeper(c, ms));
    } else {
        lemma_keeper_in(c, ms.drop_last());
        let k = keeper(c, ms.drop_last());
        if outranks(c[ms.last()], c[k]) {
            assert(ms[ms.len() - 1] == keeper(c, ms));
        } else {
            let q = choose|q: int| 0 <= q < ms.drop_last().len() && ms.drop_last()[q] == k;
            assert(ms[q] == keeper(c, ms));
        }
    }
}

/// The row a colliding group keeps is one of its members, and no member
/// outranks it: it is the most confident, and the oldest of those.
pub proof fn lemma_keeper_unbeaten(c: Seq<DedupCandidate>, ms: Seq<int>)
    requires
        ms.len() >= 1,
    ensures
        exists|q: int| 0 <= q < ms.len() && ms[q] == keeper(c, ms),
        forall|k: int| 0 <= k < ms.len() ==> !outranks(c[#[trigger] ms[k]], c[keeper(c, ms)]),
    decreases ms.len(),
{
    lemma_keeper_in(c, ms);
    if ms.len() > 1 {
        let d = ms.drop_last();
        lemma_keeper_unbeaten(c, d);
        let k = keeper(c, d);
        let last = ms.last();
        assert forall|j: int| 0 <= j < ms.len() implies !outranks(
            c[#[trigger] ms[j]],
            c[keeper(c, ms)],
        ) by {
            if j < d.len() {
                assert(ms[j] == d[j]);
                assert(!outranks(c[d[j]], c[k]));
            }
        }
    }
}

/// Deduplication never removes the id of the row a group keeps.
pub proof fn lemma_keeper_survives(c: Seq<DedupCandidate>, ms: Seq<int>, keep: int)
    ensures
        forall|k: int|
            0 <= k < group_removed(c, ms, keep).len() ==> #[trigger] group_removed(c, ms, keep)[k]
                != c[keep].id->0@,
    decreases ms.len(),
{
    if ms.len() > 0 {
        let p = group_removed(c, ms.drop_last(), keep);
        lemma_keeper_survives(c, ms.drop_last(), keep);
        let r = group_removed(c, ms, keep);
        assert forall|k: int| 0 <= k < r.len() implies #[trigger] r[k] != c[keep].id->0@ by {
            if k < p.len() {
                assert(r[k] == p[k]);
            }
        }
    }
}

} // verus!
