//! Project awareness: record-key validation, evidence lists that grow
//! without repeats, path focus, default authorities, and the manifest that
//! summarises a project's nodes.
use vstd::prelude::*;

use super::error::StoreError;
use super::sql::{binds_view, opt_bind, opt_cond, push_bind, push_cond, BindValue, BindView};
use crate::text::{decimal, join, join_strings, push_decimal};
use crate::text::{
    chars_of, has_prefix, push_str, seq_lt, smallest_distinct, starts_with, str_eq,
    strictly_sorted, views,
};

verus! {

/// What an awareness node records.
#[derive(Debug, Clone, Copy, PartialEq, Eq, Hash, Structural)]
pub enum AwarenessNodeKind {
    Objective,
    Question,
    Blocker,
    Hypothesis,
    Decision,
    Constraint,
    Fact,
    Risk,
}

/// Life-cycle state of an awareness node.
#[derive(Debug, Clone, Copy, PartialEq, Eq, Hash, Structural)]
pub enum AwarenessNodeState {
    Active,
    Conflicted,
    Stale,
    Resolved,
    Retired,
}

/// How far a node's content is to be trusted.
#[derive(Debug, Clone, Copy, PartialEq, Eq, Hash, Structural)]
pub enum AwarenessAuthority {
    Question,
    Hypothesis,
    Accepted,
    Inferred,
    Verified,
}

impl AwarenessNodeKind {
    /// The snake_case name of the kind.
    pub open spec fn spec_name(self) -> Seq<char> {
        match self {
            AwarenessNodeKind::Objective => "objective"@,
            AwarenessNodeKind::Question => "question"@,
            AwarenessNodeKind::Blocker => "blocker"@,
            AwarenessNodeKind::Hypothesis => "hypothesis"@,
            AwarenessNodeKind::Decision => "decision"@,
            AwarenessNodeKind::Constraint => "constraint"@,
            AwarenessNodeKind::Fact => "fact"@,
            AwarenessNodeKind::Risk => "risk"@,
        }
    }

    /// The snake_case name of the kind.
    pub fn name(&self) -> (r: &'static str)
        ensures
            r@ == self.spec_name(),
    {
        match self {
            AwarenessNodeKind::Objective => "objective",
            AwarenessNodeKind::Question => "question",
            AwarenessNodeKind::Blocker => "blocker",
            AwarenessNodeKind::Hypothesis => "hypothesis",
            AwarenessNodeKind::Decision => "decision",
            AwarenessNodeKind::Constraint => "constraint",
            AwarenessNodeKind::Fact => "fact",
            AwarenessNodeKind::Risk => "risk",
        }
    }
}

impl AwarenessNodeState {
    /// The snake_case name of the state.
    pub open spec fn spec_name(self) -> Seq<char> {
        match self {
            AwarenessNodeState::Active => "active"@,
            AwarenessNodeState::Conflicted => "conflicted"@,
            AwarenessNodeState::Stale => "stale"@,
            AwarenessNodeState::Resolved => "resolved"@,
            AwarenessNodeState::Retired => "retired"@,
        }
    }

    /// The snake_case name of the state.
    pub fn name(&self) -> (r: &'static str)
        ensures
            r@ == self.spec_name(),
    {
        match self {
            AwarenessNodeState::Active => "active",
            AwarenessNodeState::Conflicted => "conflicted",
            AwarenessNodeState::Stale => "stale",
            AwarenessNodeState::Resolved => "resolved",
            AwarenessNodeState::Retired => "retired",
        }
    }
}

/// A record key: non-empty, of ASCII letters, digits, `_` and `-`.
pub open spec fn is_record_key(id: Seq<char>) -> bool {
    id.len() > 0 && forall|i: int|
        0 <= i < id.len() ==> {
            let c = #[trigger] id[i];
            ('a' <= c && c <= 'z') || ('A' <= c && c <= 'Z') || ('0' <= c && c <= '9') || c == '_'
                || c == '-'
        }
}

/// Accepts a record key; anything else is refused with
/// `invalid awareness record id: <id>`.
pub fn validate_record_key(id: &str) -> (r: Result<(), StoreError>)
    ensures
        r is Ok <==> is_record_key(id@),
        r matches Err(e) ==> e matches StoreError::Other(m) && m@
            == "invalid awareness record id: "@ + id@,
{
    let cs = chars_of(id);
    let mut ok = cs.len() > 0;
    let mut i: usize = 0;
    while i < cs.len()
        invariant
            i <= cs@.len(),
            cs@ == id@,
            ok == (cs@.len() > 0 && forall|j: int|
                0 <= j < i ==> {
                    let c = #[trigger] cs@[j];
                    ('a' <= c && c <= 'z') || ('A' <= c && c <= 'Z') || ('0' <= c && c <= '9')
                        || c == '_' || c == '-'
                }),
        decreases cs@.len() - i,
    {
        let c = cs[i];
        if !(('a' <= c && c <= 'z') || ('A' <= c && c <= 'Z') || ('0' <= c && c <= '9') || c == '_'
            || c == '-') {
            ok = false;
        }
        i += 1;
    }
    if ok {
        Ok(())
    } else {
        let mut m = "invalid awareness record id: ".to_owned();
        push_str(&mut m, id);
        Err(StoreError::Other(m))
    }
}

/// The authority a node of `kind` starts with when none is given.
pub open spec fn spec_default_authority(kind: AwarenessNodeKind) -> AwarenessAuthority {
    match kind {
        AwarenessNodeKind::Question | AwarenessNodeKind::Blocker => AwarenessAuthority::Question,
        AwarenessNodeKind::Hypothesis => AwarenessAuthority::Hypothesis,
        AwarenessNodeKind::Decision | AwarenessNodeKind::Constraint => AwarenessAuthority::Accepted,
        AwarenessNodeKind::Fact => AwarenessAuthority::Inferred,
        AwarenessNodeKind::Objective | AwarenessNodeKind::Risk => AwarenessAuthority::Inferred,
    }
}

/// The authority a node of `kind` starts with when none is given.
pub fn default_authority(kind: AwarenessNodeKind) -> (r: AwarenessAuthority)
    ensures
        r == spec_default_authority(kind),
{
    match kind {
        AwarenessNodeKind::Question | AwarenessNodeKind::Blocker => AwarenessAuthority::Question,
        AwarenessNodeKind::Hypothesis => AwarenessAuthority::Hypothesis,
        AwarenessNodeKind::Decision | AwarenessNodeKind::Constraint => AwarenessAuthority::Accepted,
        AwarenessNodeKind::Fact => AwarenessAuthority::Inferred,
        AwarenessNodeKind::Objective | AwarenessNodeKind::Risk => AwarenessAuthority::Inferred,
    }
}

/// `target` followed by the items of `incoming` it does not hold yet, each
/// first occurrence once, in order.
pub open spec fn extended_unique<T>(target: Seq<T>, incoming: Seq<T>) -> Seq<T>
    decreases incoming.len(),
{
    if incoming.len() == 0 {
        target
    } else {
        let acc = extended_unique(target, incoming.drop_last());
        if acc.contains(incoming.last()) {
            acc
        } else {
            acc.push(incoming.last())
        }
    }
}

/// Whether `v` holds text `x`.
fn holds_text(v: &Vec<String>, x: &str) -> (r: bool)
    ensures
        r == views(v@).contains(x@),
{
    let mut i: usize = 0;
    while i < v.len()
        invariant
            i <= v@.len(),
            forall|j: int| 0 <= j < i ==> (#[trigger] v@[j])@ != x@,
        decreases v@.len() - i,
    {
        if str_eq(v[i].as_str(), x) {
            assert(views(v@)[i as int] == x@);
            return true;
        }
        i += 1;
    }
    proof {
        if views(v@).contains(x@) {
            let j = choose|j: int| 0 <= j < views(v@).len() && views(v@)[j] == x@;
            assert(v@[j]@ == x@);
        }
    }
    false
}

/// Growing a list without repeats keeps it as a prefix, takes in every
/// incoming entry, adds nothing else, and introduces no duplicate.
pub proof fn lemma_extended_unique_grows<T>(target: Seq<T>, incoming: Seq<T>)
    ensures
        extended_unique(target, incoming).len() >= target.len(),
        extended_unique(target, incoming).subrange(0, target.len() as int) == target,
        forall|x: T| #[trigger] incoming.contains(x) ==> extended_unique(target, incoming).contains(x),
        forall|x: T|
            #[trigger] extended_unique(target, incoming).contains(x) ==> target.contains(x)
                || incoming.contains(x),
        target.no_duplicates() ==> extended_unique(target, incoming).no_duplicates(),
    decreases incoming.len(),
{
    if incoming.len() > 0 {
        let d = incoming.drop_last();
        let y = incoming.last();
        lemma_extended_unique_grows(target, d);
        let acc = extended_unique(target, d);
        assert forall|x: T| #[trigger] incoming.contains(x) implies extended_unique(
            target,
            incoming,
        ).contains(x) by {
            let j = choose|j: int| 0 <= j < incoming.len() && incoming[j] == x;
            if j < d.len() {
                assert(d[j] == x);
                assert(d.contains(x));
                let k = choose|k: int| 0 <= k < acc.len() && acc[k] == x;
                if !acc.contains(y) {
                    assert(acc.push(y)[k] == x);
                }
            } else {
                if !acc.contains(y) {
                    assert(acc.push(y)[acc.len() as int] == x);
                }
            }
        }
        assert forall|x: T| #[trigger] extended_unique(target, incoming).contains(x) implies target.contains(
            x,
        ) || incoming.contains(x) by {
            if !acc.contains(y) {
                let k = choose|k: int| 0 <= k < acc.push(y).len() && acc.push(y)[k] == x;
                if k < acc.len() {
                    assert(acc[k] == x);
                    assert(acc.contains(x));
                    if d.contains(x) {
                        let j = choose|j: int| 0 <= j < d.len() && d[j] == x;
                        assert(incoming[j] == x);
                    }
                } else {
                    assert(incoming[incoming.len() - 1] == x);
                }
            } else {
                assert(acc.contains(x));
                if d.contains(x) {
                    let j = choose|j: int| 0 <= j < d.len() && d[j] == x;
                    assert(incoming[j] == x);
                }
            }
        }
        if !acc.contains(y) {
            assert(acc.push(y).subrange(0, target.len() as int) =~= acc.subrange(
                0,
                target.len() as int,
            ));
        }
    }
}

/// Appends the incoming strings that `target` does not hold yet, once each.
pub fn extend_unique(target: &mut Vec<String>, incoming: &[String])
    ensures
        views(final(target)@) == extended_unique(views(old(target)@), views(incoming@)),
{
    let mut i: usize = 0;
    while i < incoming.len()
        invariant
            i <= incoming@.len(),
            views(target@) == extended_unique(views(old(target)@), views(incoming@.take(i as int))),
        decreases incoming@.len() - i,
    {
        proof {
            assert(views(incoming@.take(i + 1)).drop_last() =~= views(incoming@.take(i as int)));
            assert(views(incoming@.take(i + 1)).last() == incoming@[i as int]@);
        }
        if !holds_text(target, incoming[i].as_str()) {
            let ghost before = target@;
            target.push(incoming[i].clone());
            assert(views(target@) =~= views(before).push(incoming@[i as int]@));
        }
        i += 1;
    }
    proof {
        assert(incoming@.take(incoming@.len() as int) =~= incoming@);
    }
}

/// Appends the incoming numbers that `target` does not hold yet, once each.
pub fn extend_unique_u64(target: &mut Vec<u64>, incoming: &[u64])
    ensures
        final(target)@ == extended_unique(old(target)@, incoming@),
{
    let mut i: usize = 0;
    while i < incoming.len()
        invariant
            i <= incoming@.len(),
            target@ == extended_unique(old(target)@, incoming@.take(i as int)),
        decreases incoming@.len() - i,
    {
        proof {
            assert(incoming@.take(i + 1).drop_last() =~= incoming@.take(i as int));
        }
        let x = incoming[i];
        let mut found = false;
        let mut j: usize = 0;
        while j < target.len()
            invariant
                j <= target@.len(),
                found == exists|k: int| 0 <= k < j && target@[k] == x,
            decreases target@.len() - j,
        {
            if target[j] == x {
                found = true;
            }
            j += 1;
        }
        if !found {
            target.push(x);
        }
        i += 1;
    }
    proof {
        assert(incoming@.take(incoming@.len() as int) =~= incoming@);
    }
}

/// The primary reference, if any, then the evidence references not yet
/// listed.
pub fn collect_primary_and_evidence(primary: Option<&str>, evidence: &[String]) -> (r: Vec<
    String,
>)
    ensures
        views(r@) == extended_unique(
            match primary {
                Some(p) => seq![p@],
                None => seq![],
            },
            views(evidence@),
        ),
{
    let mut refs: Vec<String> = Vec::new();
    if let Some(p) = primary {
        refs.push(p.to_owned());
    }
    assert(views(refs@) =~= match primary {
        Some(p) => seq![p@],
        None => seq![],
    });
    extend_unique(&mut refs, evidence);
    refs
}

/// Number of non-empty `/`-separated segments of `s`.
pub open spec fn segment_count(s: Seq<char>) -> nat
    decreases s.len(),
{
    if s.len() == 0 {
        0
    } else if s.last() == '/' {
        segment_count(s.drop_last())
    } else if s.len() == 1 || s[s.len() - 2] == '/' {
        segment_count(s.drop_last()) + 1
    } else {
        segment_count(s.drop_last())
    }
}

/// `path` is `focus` itself, or lies under `focus/` at most `depth`
/// non-empty segments down.
pub open spec fn spec_path_depth_within(focus: Seq<char>, path: Seq<char>, depth: nat) -> bool {
    path == focus || (starts_with(path, focus.push('/')) && segment_count(
        path.skip(focus.len() + 1int),
    ) <= depth)
}

/// Whether `path` is `focus` or lies at most `depth` segments under it.
pub fn path_depth_within(focus: &str, path: &str, depth: usize) -> (r: bool)
    ensures
        r == spec_path_depth_within(focus@, path@, depth as nat),
{
    if str_eq(path, focus) {
        return true;
    }
    let p = chars_of(path);
    let mut pre = chars_of(focus);
    pre.push('/');
    if !has_prefix(p.as_slice(), pre.as_slice()) {
        return false;
    }
    let start = pre.len();
    let mut count: usize = 0;
    let mut i: usize = start;
    while i < p.len()
        invariant
            start <= i <= p@.len(),
            start == focus@.len() + 1,
            count as nat == segment_count(p@.subrange(start as int, i as int)),
            count <= i - start,
        decreases p@.len() - i,
    {
        proof {
            let t = p@.subrange(start as int, i + 1);
            assert(t.drop_last() =~= p@.subrange(start as int, i as int));
            if i > start {
                assert(t[t.len() - 2] == p@[i - 1]);
            }
        }
        if p[i] != '/' && (i == start || p[i - 1] == '/') {
            count += 1;
        }
        i += 1;
    }
    proof {
        assert(p@.subrange(start as int, p@.len() as int) =~= path@.skip(focus@.len() + 1int));
    }
    count <= depth
}

/// What the manifest reads of a node.
#[derive(Debug, Clone)]
pub struct ManifestNode {
    pub kind: AwarenessNodeKind,
    pub state: AwarenessNodeState,
    pub path: String,
}

/// A project manifest over a list of nodes: counts per kind (by kind name,
/// present kinds only), the positions of the first five active objectives,
/// open questions and blockers, and active hypotheses, the stale-or-risk
/// and conflict counts, and up to eight focus paths in increasing order.
#[derive(Debug, Clone)]
pub struct ManifestPlan {
    pub counts_by_kind: Vec<(String, usize)>,
    pub active_objectives: Vec<usize>,
    pub open_questions: Vec<usize>,
    pub active_hypotheses: Vec<usize>,
    pub stale_risk_count: usize,
    pub conflict_count: usize,
    pub suggested_focus_paths: Vec<String>,
}

/// The manifest lists at most this many nodes of each kind of list.
pub const MANIFEST_LIST_CAP: usize = 5;

/// The manifest suggests at most this many focus paths.
pub const MANIFEST_FOCUS_CAP: usize = 8;

/// An active objective.
pub open spec fn is_active_objective(n: ManifestNode) -> bool {
    n.state is Active && n.kind is Objective
}

/// An active question or blocker.
pub open spec fn is_open_question(n: ManifestNode) -> bool {
    n.state is Active && (n.kind is Question || n.kind is Blocker)
}

/// An active hypothesis.
pub open spec fn is_active_hypothesis(n: ManifestNode) -> bool {
    n.state is Active && n.kind is Hypothesis
}

/// A stale node or an active risk.
pub open spec fn is_stale_or_risk(n: ManifestNode) -> bool {
    n.state is Stale || (n.state is Active && n.kind is Risk)
}

/// The node's path is suggested as a focus: conflicted, stale, or an
/// active objective, question, blocker or risk.
pub open spec fn suggests_focus(n: ManifestNode) -> bool {
    n.state is Conflicted || n.state is Stale || (n.state is Active && (n.kind is Objective
        || n.kind is Question || n.kind is Blocker || n.kind is Risk))
}

/// Positions, in order, of the first `k` nodes that satisfy `p`.
pub open spec fn positions(nodes: Seq<ManifestNode>, p: spec_fn(ManifestNode) -> bool, k: int) -> Seq<
    int,
>
    decreases k,
{
    if k <= 0 {
        seq![]
    } else {
        let prev = positions(nodes, p, k - 1);
        if p(nodes[k - 1]) {
            prev.push(k - 1)
        } else {
            prev
        }
    }
}

/// The first `cap` entries.
pub open spec fn capped(s: Seq<int>, cap: int) -> Seq<int> {
    if s.len() > cap {
        s.take(cap)
    } else {
        s
    }
}

/// Kinds in the order of their names.
pub open spec fn kinds_by_name() -> Seq<AwarenessNodeKind> {
    seq![
        AwarenessNodeKind::Blocker,
        AwarenessNodeKind::Constraint,
        AwarenessNodeKind::Decision,
        AwarenessNodeKind::Fact,
        AwarenessNodeKind::Hypothesis,
        AwarenessNodeKind::Objective,
        AwarenessNodeKind::Question,
        AwarenessNodeKind::Risk,
    ]
}

/// Number of nodes of kind `k`.
pub open spec fn kind_count(nodes: Seq<ManifestNode>, k: AwarenessNodeKind) -> nat {
    positions(nodes, |n: ManifestNode| n.kind == k, nodes.len() as int).len()
}

/// `(name, count)` of each kind of `ks` that occurs, in the order of `ks`.
pub open spec fn present_kind_counts(nodes: Seq<ManifestNode>, ks: Seq<AwarenessNodeKind>) -> Seq<
    (Seq<char>, nat),
>
    decreases ks.len(),
{
    if ks.len() == 0 {
        seq![]
    } else {
        let prev = present_kind_counts(nodes, ks.drop_last());
        let k = ks.last();
        if kind_count(nodes, k) > 0 {
            prev.push((k.spec_name(), kind_count(nodes, k)))
        } else {
            prev
        }
    }
}

/// Paths of the nodes that suggest a focus, in order.
pub open spec fn focus_candidates(nodes: Seq<ManifestNode>) -> Seq<Seq<char>> {
    positions(nodes, |n: ManifestNode| suggests_focus(n), nodes.len() as int).map_values(
        |i: int| nodes[i].path@,
    )
}

/// Positions as machine indices.
pub open spec fn as_ints(v: Seq<usize>) -> Seq<int> {
    v.map_values(|x: usize| x as int)
}

/// Appends position `i` when `b` holds and fewer than five are listed.
fn note_position(list: &mut Vec<usize>, b: bool, i: usize)
    ensures
        final(list)@ == if b && old(list)@.len() < 5 {
            old(list)@.push(i)
        } else {
            old(list)@
        },
{
    if b && list.len() < MANIFEST_LIST_CAP {
        list.push(i);
    }
}

/// Index of a kind in `kinds_by_name`.
fn kind_slot(k: AwarenessNodeKind) -> (r: usize)
    ensures
        r < 8,
        kinds_by_name()[r as int] == k,
{
    match k {
        AwarenessNodeKind::Blocker => 0,
        AwarenessNodeKind::Constraint => 1,
        AwarenessNodeKind::Decision => 2,
        AwarenessNodeKind::Fact => 3,
        AwarenessNodeKind::Hypothesis => 4,
        AwarenessNodeKind::Objective => 5,
        AwarenessNodeKind::Question => 6,
        AwarenessNodeKind::Risk => 7,
    }
}

/// The kind in slot `i` of `kinds_by_name`.
fn slot_kind(i: usize) -> (r: AwarenessNodeKind)
    requires
        i < 8,
    ensures
        r == kinds_by_name()[i as int],
{
    if i == 0 {
        AwarenessNodeKind::Blocker
    } else if i == 1 {
        AwarenessNodeKind::Constraint
    } else if i == 2 {
        AwarenessNodeKind::Decision
    } else if i == 3 {
        AwarenessNodeKind::Fact
    } else if i == 4 {
        AwarenessNodeKind::Hypothesis
    } else if i == 5 {
        AwarenessNodeKind::Objective
    } else if i == 6 {
        AwarenessNodeKind::Question
    } else {
        AwarenessNodeKind::Risk
    }
}

/// Capping a growing list keeps its first entries.
proof fn lemma_capped_push(s: Seq<int>, x: int, cap: int)
    requires
        cap >= 0,
    ensures
        capped(s.push(x), cap) == if capped(s, cap).len() < cap {
            capped(s, cap).push(x)
        } else {
            capped(s, cap)
        },
{
    if s.len() >= cap {
        assert(s.push(x).take(cap) =~= s.take(cap));
        if s.len() > cap {
        } else {
            assert(s.take(cap) =~= s);
        }
    } else {
        assert(capped(s.push(x), cap) =~= s.push(x));
    }
}

/// The manifest of a list of nodes.
pub fn manifest_plan(nodes: &Vec<ManifestNode>) -> (r: ManifestPlan)
    requires
        nodes@.len() < usize::MAX,
    ensures
        r.counts_by_kind@.map_values(|p: (String, usize)| (p.0@, p.1 as nat)) == present_kind_counts(
            nodes@,
            kinds_by_name(),
        ),
        as_ints(r.active_objectives@) == capped(
            positions(nodes@, |n: ManifestNode| is_active_objective(n), nodes@.len() as int),
            5,
        ),
        as_ints(r.open_questions@) == capped(
            positions(nodes@, |n: ManifestNode| is_open_question(n), nodes@.len() as int),
            5,
        ),
        as_ints(r.active_hypotheses@) == capped(
            positions(nodes@, |n: ManifestNode| is_active_hypothesis(n), nodes@.len() as int),
            5,
        ),
        r.stale_risk_count == positions(
            nodes@,
            |n: ManifestNode| is_stale_or_risk(n),
            nodes@.len() as int,
        ).len(),
        r.conflict_count == positions(
            nodes@,
            |n: ManifestNode| n.state is Conflicted,
            nodes@.len() as int,
        ).len(),
        strictly_sorted(views(r.suggested_focus_paths@)),
        r.suggested_focus_paths@.len() <= 8,
        forall|k: int|
            0 <= k < r.suggested_focus_paths@.len() ==> focus_candidates(nodes@).contains(
                #[trigger] r.suggested_focus_paths@[k]@,
            ),
        forall|p: Seq<char>| #[trigger]
            focus_candidates(nodes@).contains(p) ==> views(r.suggested_focus_paths@).contains(p) || (
            r.suggested_focus_paths@.len() == 8 && seq_lt(
                r.suggested_focus_paths@[r.suggested_focus_paths@.len() - 1]@,
                p,
            )),
{
    let ghost ns = nodes@;
    let ghost obj = |n: ManifestNode| is_active_objective(n);
    let ghost qst = |n: ManifestNode| is_open_question(n);
    let ghost hyp = |n: ManifestNode| is_active_hypothesis(n);
    let ghost srk = |n: ManifestNode| is_stale_or_risk(n);
    let ghost cfl = |n: ManifestNode| n.state is Conflicted;
    let ghost sug = |n: ManifestNode| suggests_focus(n);
    let mut counts: Vec<usize> = vec![0, 0, 0, 0, 0, 0, 0, 0];
    let mut objectives: Vec<usize> = Vec::new();
    let mut questions: Vec<usize> = Vec::new();
    let mut hypotheses: Vec<usize> = Vec::new();
    let mut stale_risk: usize = 0;
    let mut conflicts: usize = 0;
    let mut candidates: Vec<String> = Vec::new();
    let mut i: usize = 0;
    while i < nodes.len()
        invariant
            i <= ns.len(),
            ns == nodes@,
            ns.len() < usize::MAX,
            obj == (|n: ManifestNode| is_active_objective(n)),
            qst == (|n: ManifestNode| is_open_question(n)),
            hyp == (|n: ManifestNode| is_active_hypothesis(n)),
            srk == (|n: ManifestNode| is_stale_or_risk(n)),
            cfl == (|n: ManifestNode| n.state is Conflicted),
            sug == (|n: ManifestNode| suggests_focus(n)),
            counts@.len() == 8,
            forall|s: int|
                0 <= s < 8 ==> #[trigger] counts@[s] == positions(
                    ns,
                    |n: ManifestNode| n.kind == kinds_by_name()[s],
                    i as int,
                ).len(),
            as_ints(objectives@) == capped(positions(ns, obj, i as int), 5),
            as_ints(questions@) == capped(positions(ns, qst, i as int), 5),
            as_ints(hypotheses@) == capped(positions(ns, hyp, i as int), 5),
            stale_risk == positions(ns, srk, i as int).len(),
            conflicts == positions(ns, cfl, i as int).len(),
            views(candidates@) == positions(ns, sug, i as int).map_values(|j: int| ns[j].path@),
            forall|p: spec_fn(ManifestNode) -> bool, k: int|
                0 <= k <= i ==> #[trigger] positions(ns, p, k).len() <= k,
        decreases ns.len() - i,
    {
        let node = &nodes[i];
        let slot = kind_slot(node.kind);
        proof {
            assert forall|p: spec_fn(ManifestNode) -> bool, k: int|
                0 <= k <= i + 1 implies #[trigger] positions(ns, p, k).len() <= k by {
                if k == i + 1 {
                    assert(positions(ns, p, k - 1).len() <= k - 1);
                }
            }
            assert(positions(ns, |n: ManifestNode| n.kind == kinds_by_name()[slot as int], i as int).len() <= i);
        }
        let c = counts[slot];
        counts.set(slot, c + 1);
        let active = node.state == AwarenessNodeState::Active;
        proof {
            lemma_capped_push(positions(ns, obj, i as int), i as int, 5);
            lemma_capped_push(positions(ns, qst, i as int), i as int, 5);
            lemma_capped_push(positions(ns, hyp, i as int), i as int, 5);
        }
        assert(positions(ns, obj, i + 1) == if obj(ns[i as int]) {
            positions(ns, obj, i as int).push(i as int)
        } else {
            positions(ns, obj, i as int)
        });
        let ghost o0 = objectives@;
        let ghost q0 = questions@;
        let ghost h0 = hypotheses@;
        note_position(&mut objectives, active && node.kind == AwarenessNodeKind::Objective, i);
        note_position(
            &mut questions,
            active && (node.kind == AwarenessNodeKind::Question || node.kind
                == AwarenessNodeKind::Blocker),
            i,
        );
        note_position(&mut hypotheses, active && node.kind == AwarenessNodeKind::Hypothesis, i);
        proof {
            assert(as_ints(o0.push(i)) =~= as_ints(o0).push(i as int));
            assert(as_ints(q0.push(i)) =~= as_ints(q0).push(i as int));
            assert(as_ints(h0.push(i)) =~= as_ints(h0).push(i as int));
            assert(positions(ns, srk, i as int).len() <= i);
            assert(positions(ns, cfl, i as int).len() <= i);
        }
        if node.state == AwarenessNodeState::Stale || (active && node.kind == AwarenessNodeKind::Risk) {
            stale_risk += 1;
        }
        if node.state == AwarenessNodeState::Conflicted {
            conflicts += 1;
        }
        if node.state == AwarenessNodeState::Conflicted || node.state == AwarenessNodeState::Stale || (
        active && (node.kind == AwarenessNodeKind::Objective || node.kind
            == AwarenessNodeKind::Question || node.kind == AwarenessNodeKind::Blocker || node.kind
            == AwarenessNodeKind::Risk)) {
            let ghost c0 = candidates@;
            candidates.push(node.path.clone());
            proof {
                assert(sug(ns[i as int]));
                assert(views(candidates@) =~= views(c0).push(ns[i as int].path@));
                assert(positions(ns, sug, i + 1) == positions(ns, sug, i as int).push(i as int));
                assert(positions(ns, sug, i + 1).map_values(|j: int| ns[j].path@) =~= positions(
                    ns,
                    sug,
                    i as int,
                ).map_values(|j: int| ns[j].path@).push(ns[i as int].path@));
            }
        }
        proof {
            assert forall|s: int| 0 <= s < 8 implies #[trigger] counts@[s] == positions(
                ns,
                |n: ManifestNode| n.kind == kinds_by_name()[s],
                i + 1,
            ).len() by {
                let p = |n: ManifestNode| n.kind == kinds_by_name()[s];
                assert(positions(ns, p, i + 1) == if p(ns[i as int]) {
                    positions(ns, p, i as int).push(i as int)
                } else {
                    positions(ns, p, i as int)
                });
            }
        }
        i += 1;
    }
    let mut counts_by_kind: Vec<(String, usize)> = Vec::new();
    let mut s: usize = 0;
    while s < 8
        invariant
            s <= 8,
            ns == nodes@,
            counts@.len() == 8,
            forall|t: int|
                0 <= t < 8 ==> #[trigger] counts@[t] == kind_count(ns, kinds_by_name()[t]),
            counts_by_kind@.map_values(|p: (String, usize)| (p.0@, p.1 as nat))
                == present_kind_counts(ns, kinds_by_name().take(s as int)),
        decreases 8 - s,
    {
        let k = slot_kind(s);
        proof {
            assert(kinds_by_name().take(s + 1).drop_last() =~= kinds_by_name().take(s as int));
        }
        if counts[s] > 0 {
            let ghost before = counts_by_kind@;
            counts_by_kind.push((k.name().to_owned(), counts[s]));
            assert(counts_by_kind@.map_values(|p: (String, usize)| (p.0@, p.1 as nat))
                =~= before.map_values(|p: (String, usize)| (p.0@, p.1 as nat)).push(
                (k.spec_name(), counts@[s as int] as nat),
            ));
        }
        s += 1;
    }
    proof {
        assert(kinds_by_name().take(8) =~= kinds_by_name());
    }
    let suggested = smallest_distinct(&candidates, MANIFEST_FOCUS_CAP);
    ManifestPlan {
        counts_by_kind,
        active_objectives: objectives,
        open_questions: questions,
        active_hypotheses: hypotheses,
        stale_risk_count: stale_risk,
        conflict_count: conflicts,
        suggested_focus_paths: suggested,
    }
}

/// States a manifest or traversal reads: every state when inactive nodes
/// are included (an empty list), else active and conflicted.
pub fn listed_states(include_inactive: bool) -> (r: Vec<AwarenessNodeState>)
    ensures
        r@ == if include_inactive {
            seq![]
        } else {
            seq![AwarenessNodeState::Active, AwarenessNodeState::Conflicted]
        },
{
    if include_inactive {
        Vec::new()
    } else {
        vec![AwarenessNodeState::Active, AwarenessNodeState::Conflicted]
    }
}

/// Conditions of the node query: the project, the listed states (when
/// any), and the focus path or anything under it (when given).
pub open spec fn node_query_conditions(states_listed: bool, focused: bool) -> Seq<Seq<char>> {
    seq!["project_slug = $project_slug"@] + opt_cond(states_listed, "state IN $states"@) + opt_cond(
        focused,
        "(path = $focus_path OR string::starts_with(path, $path_prefix))"@,
    )
}

/// The node query: newest first, at most `limit` nodes.
pub open spec fn node_query_sql(states_listed: bool, focused: bool, limit: nat) -> Seq<char> {
    "SELECT * FROM awareness_node WHERE "@ + join(node_query_conditions(states_listed, focused), " AND "@)
        + " ORDER BY updated_at DESC LIMIT "@ + decimal(limit)
}

/// Bindings of the node query: project, state names, focus path and the
/// focus path followed by `/`.
pub open spec fn node_query_binds(
    project_slug: Seq<char>,
    focus: Option<Seq<char>>,
    states: Seq<AwarenessNodeState>,
) -> Seq<(Seq<char>, BindView)> {
    seq![("project_slug"@, BindView::Text(project_slug))] + opt_bind(
        states.len() > 0,
        "states"@,
        BindView::TextList(states.map_values(|s: AwarenessNodeState| s.spec_name())),
    ) + match focus {
        Some(f) => seq![("focus_path"@, BindView::Text(f)), ("path_prefix"@, BindView::Text(f.push('/')))],
        None => seq![],
    }
}

/// The statement and bindings that read a project's nodes.
pub fn query_nodes_sql(
    project_slug: &str,
    focus_path: Option<&str>,
    states: &Vec<AwarenessNodeState>,
    limit: usize,
) -> (r: (String, Vec<(String, BindValue)>))
    ensures
        r.0@ == node_query_sql(states@.len() > 0, focus_path is Some, limit as nat),
        binds_view(r.1@) == node_query_binds(
            project_slug@,
            match focus_path {
                Some(f) => Some(f@),
                None => None,
            },
            states@,
        ),
{
    let mut conds: Vec<String> = Vec::new();
    push_cond(&mut conds, "project_slug = $project_slug");
    if states.len() > 0 {
        push_cond(&mut conds, "state IN $states");
    }
    if focus_path.is_some() {
        push_cond(&mut conds, "(path = $focus_path OR string::starts_with(path, $path_prefix))");
    }
    assert(views(conds@) =~= node_query_conditions(states@.len() > 0, focus_path is Some));
    let mut sql = "SELECT * FROM awareness_node WHERE ".to_owned();
    let joined = join_strings(&conds, " AND ");
    push_str(&mut sql, joined.as_str());
    push_str(&mut sql, " ORDER BY updated_at DESC LIMIT ");
    push_decimal(&mut sql, limit as u64);
    let mut binds: Vec<(String, BindValue)> = Vec::new();
    push_bind(&mut binds, "project_slug", BindValue::Text(project_slug.to_owned()));
    let ghost b1 = binds_view(binds@);
    if states.len() > 0 {
        let mut names: Vec<String> = Vec::new();
        let mut i: usize = 0;
        while i < states.len()
            invariant
                i <= states@.len(),
                views(names@) == states@.take(i as int).map_values(
                    |s: AwarenessNodeState| s.spec_name(),
                ),
            decreases states@.len() - i,
        {
            let ghost before = names@;
            let x = states[i].name().to_owned();
            names.push(x);
            proof {
                assert(views(names@) =~= views(before).push(x@));
                assert(states@.take(i + 1).map_values(|s: AwarenessNodeState| s.spec_name())
                    =~= states@.take(i as int).map_values(|s: AwarenessNodeState| s.spec_name()).push(
                    states@[i as int].spec_name(),
                ));
            }
            i += 1;
        }
        proof {
            assert(states@.take(states@.len() as int) =~= states@);
        }
        push_bind(&mut binds, "states", BindValue::TextList(names));
    }
    let ghost b2 = binds_view(binds@);
    assert(b2 =~= b1 + opt_bind(
        states@.len() > 0,
        "states"@,
        BindView::TextList(states@.map_values(|s: AwarenessNodeState| s.spec_name())),
    ));
    if let Some(path) = focus_path {
        push_bind(&mut binds, "focus_path", BindValue::Text(path.to_owned()));
        let mut prefix = path.to_owned();
        crate::text::push_char(&mut prefix, '/');
        push_bind(&mut binds, "path_prefix", BindValue::Text(prefix));
    }
    assert(binds_view(binds@) =~= node_query_binds(
        project_slug@,
        match focus_path {
            Some(f) => Some(f@),
            None => None,
        },
        states@,
    ));
    assert(sql@ =~= node_query_sql(states@.len() > 0, focus_path is Some, limit as nat));
    (sql, binds)
}

} // verus!
