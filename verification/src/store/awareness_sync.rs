//! Syncing awareness: the node a capture creates, how an update, resolve,
//! verify or retire changes an existing node, when an explicit
//! contradiction is a conflict, the edges an input asks for, and what a
//! traversal keeps.
//!
//! Confidence is carried as the bit pattern of an `f64`; keeping it within
//! `[0, 1]` is floating-point work left to the caller.
use vstd::prelude::*;

use super::awareness::{
    collect_primary_and_evidence, default_authority, extend_unique, extend_unique_u64,
    extended_unique, is_record_key, path_depth_within, spec_default_authority,
    spec_path_depth_within, validate_record_key, AwarenessAuthority, AwarenessNodeKind,
    AwarenessNodeState,
};
use super::error::StoreError;
use super::sql::dup_strings;
use crate::text::{push_str, str_eq, views};
use crate::types::observation::dup_opt_string;

verus! {

/// Bit pattern of the `f64` 0.5, the confidence of a capture that gives
/// none.
pub const DEFAULT_CONFIDENCE_BITS: u64 = 0x3FE0_0000_0000_0000;

/// Bit pattern of the `f64` 1.0, the confidence of a verification that
/// gives none.
pub const VERIFIED_CONFIDENCE_BITS: u64 = 0x3FF0_0000_0000_0000;

/// The bits of the `f64` with bits `b` after `f64::clamp(0.0, 1.0)`:
/// a NaN stays itself, a negative value other than -0.0 becomes 0.0, a value
/// above 1.0 (infinity included) becomes 1.0, and anything else is kept.
/// Positive `f64` values order as their bit patterns do.
#[verifier::opaque]
pub open spec fn spec_clamp_unit_bits(b: u64) -> u64 {
    let magnitude = if b >= 0x8000_0000_0000_0000 {
        b - 0x8000_0000_0000_0000
    } else {
        b as int
    };
    if magnitude > 0x7FF0_0000_0000_0000 {
        b
    } else if b >= 0x8000_0000_0000_0000 {
        if magnitude == 0 {
            b
        } else {
            0
        }
    } else if b > VERIFIED_CONFIDENCE_BITS {
        VERIFIED_CONFIDENCE_BITS
    } else {
        b
    }
}

/// A confidence (as `f64` bits) clamped to [0, 1].
#[verifier::when_used_as_spec(spec_clamp_unit_bits)]
pub fn clamp_unit_bits(b: u64) -> (r: u64)
    ensures
        r == spec_clamp_unit_bits(b),
{
    reveal(spec_clamp_unit_bits);
    let magnitude = if b >= 0x8000_0000_0000_0000 {
        b - 0x8000_0000_0000_0000
    } else {
        b
    };
    if magnitude > 0x7FF0_0000_0000_0000 {
        b
    } else if b >= 0x8000_0000_0000_0000 {
        if magnitude == 0 {
            b
        } else {
            0
        }
    } else if b > VERIFIED_CONFIDENCE_BITS {
        VERIFIED_CONFIDENCE_BITS
    } else {
        b
    }
}

/// What a sync does.
#[derive(Debug, Clone, Copy, PartialEq, Eq, Hash, Structural)]
pub enum AwarenessOperation {
    Capture,
    Question,
    Update,
    Resolve,
    Verify,
    Retire,
}

impl AwarenessOperation {
    /// The snake_case name of the operation.
    pub open spec fn spec_name(self) -> Seq<char> {
        match self {
            AwarenessOperation::Capture => "capture"@,
            AwarenessOperation::Question => "question"@,
            AwarenessOperation::Update => "update"@,
            AwarenessOperation::Resolve => "resolve"@,
            AwarenessOperation::Verify => "verify"@,
            AwarenessOperation::Retire => "retire"@,
        }
    }

    /// The snake_case name of the operation.
    pub fn name(&self) -> (r: &'static str)
        ensures
            r@ == self.spec_name(),
    {
        match self {
            AwarenessOperation::Capture => "capture",
            AwarenessOperation::Question => "question",
            AwarenessOperation::Update => "update",
            AwarenessOperation::Resolve => "resolve",
            AwarenessOperation::Verify => "verify",
            AwarenessOperation::Retire => "retire",
        }
    }
}

/// How one awareness node relates to another.
#[derive(Debug, Clone, Copy, PartialEq, Eq, Hash, Structural)]
pub enum AwarenessEdgeKind {
    Supersedes,
    Answers,
    Contradicts,
}

impl AwarenessEdgeKind {
    /// The snake_case name of the edge kind.
    pub open spec fn spec_name(self) -> Seq<char> {
        match self {
            AwarenessEdgeKind::Supersedes => "supersedes"@,
            AwarenessEdgeKind::Answers => "answers"@,
            AwarenessEdgeKind::Contradicts => "contradicts"@,
        }
    }

    /// The snake_case name of the edge kind.
    pub fn name(&self) -> (r: &'static str)
        ensures
            r@ == self.spec_name(),
    {
        match self {
            AwarenessEdgeKind::Supersedes => "supersedes",
            AwarenessEdgeKind::Answers => "answers",
            AwarenessEdgeKind::Contradicts => "contradicts",
        }
    }
}

/// What a sync cites as evidence.
#[derive(Debug, Clone)]
pub struct AwarenessEvidence {
    pub observation_ids: Vec<u64>,
    pub debug_session_ids: Vec<String>,
    pub checkpoint_ids: Vec<String>,
    pub librarian_node_ids: Vec<String>,
}

/// One sync request.
#[derive(Debug, Clone)]
pub struct AwarenessSync {
    pub operation: AwarenessOperation,
    pub project_slug: String,
    pub path: String,
    pub kind: AwarenessNodeKind,
    pub authority: Option<AwarenessAuthority>,
    pub confidence_bits: Option<u64>,
    pub summary: Option<String>,
    pub note: Option<String>,
    pub redex: Option<String>,
    pub tags: Vec<String>,
    pub debug_session_id: Option<String>,
    pub checkpoint_id: Option<String>,
    pub evidence: AwarenessEvidence,
    pub target_node_id: Option<String>,
    pub supersedes: Vec<String>,
    pub answers: Vec<String>,
    pub contradicts: Vec<String>,
}

/// A stored awareness node.
#[derive(Debug, Clone)]
pub struct AwarenessNode {
    pub id: Option<String>,
    pub project_slug: String,
    pub path: String,
    pub kind: AwarenessNodeKind,
    pub state: AwarenessNodeState,
    pub authority: AwarenessAuthority,
    pub confidence_bits: u64,
    pub summary: String,
    pub note: Option<String>,
    pub redex: Option<String>,
    pub tags: Vec<String>,
    pub debug_session_id: Option<String>,
    pub checkpoint_id: Option<String>,
    pub debug_session_ids: Vec<String>,
    pub checkpoint_ids: Vec<String>,
    pub observation_ids: Vec<u64>,
    pub librarian_node_ids: Vec<String>,
    pub created_at: u64,
    pub updated_at: u64,
    pub resolved_at: Option<u64>,
    pub retired_at: Option<u64>,
    pub stale_at: Option<u64>,
}

/// A present optional reference, as a one-element list.
pub open spec fn primary_list(o: Option<String>) -> Seq<Seq<char>> {
    match o {
        Some(s) => seq![s@],
        None => seq![],
    }
}

/// The primary reference followed by the cited ones not yet listed.
pub open spec fn cited(primary: Option<String>, evidence: Seq<String>) -> Seq<Seq<char>> {
    extended_unique(primary_list(primary), views(evidence))
}

fn primary_and_evidence(primary: &Option<String>, evidence: &Vec<String>) -> (r: Vec<String>)
    ensures
        views(r@) == cited(*primary, evidence@),
{
    let p: Option<&str> = match primary {
        Some(s) => Some(s.as_str()),
        None => None,
    };
    collect_primary_and_evidence(p, evidence.as_slice())
}

/// The node a capture of `input` at `now` creates: active, with the given
/// or default authority and confidence, the summary (or the path when none
/// is given), and the cited evidence.
pub fn new_node_from_input(input: &AwarenessSync, now: u64) -> (r: AwarenessNode)
    ensures
        r.id is None,
        r.project_slug@ == input.project_slug@,
        r.path@ == input.path@,
        r.kind == input.kind,
        r.state == AwarenessNodeState::Active,
        r.authority == match input.authority {
            Some(a) => a,
            None => spec_default_authority(input.kind),
        },
        r.confidence_bits == match input.confidence_bits {
            Some(c) => clamp_unit_bits(c),
            None => DEFAULT_CONFIDENCE_BITS,
        },
        r.summary@ == match input.summary {
            Some(s) => s@,
            None => input.path@,
        },
        r.note == input.note,
        r.redex == input.redex,
        views(r.tags@) == views(input.tags@),
        r.debug_session_id == input.debug_session_id,
        r.checkpoint_id == input.checkpoint_id,
        views(r.debug_session_ids@) == cited(
            input.debug_session_id,
            input.evidence.debug_session_ids@,
        ),
        views(r.checkpoint_ids@) == cited(input.checkpoint_id, input.evidence.checkpoint_ids@),
        r.observation_ids@ == input.evidence.observation_ids@,
        views(r.librarian_node_ids@) == views(input.evidence.librarian_node_ids@),
        r.created_at == now,
        r.updated_at == now,
        r.resolved_at is None,
        r.retired_at is None,
        r.stale_at is None,
{
    let authority = match input.authority {
        Some(a) => a,
        None => default_authority(input.kind),
    };
    let confidence_bits = match input.confidence_bits {
        Some(c) => clamp_unit_bits(c),
        None => DEFAULT_CONFIDENCE_BITS,
    };
    let summary = match &input.summary {
        Some(s) => s.clone(),
        None => input.path.clone(),
    };
    AwarenessNode {
        id: None,
        project_slug: input.project_slug.clone(),
        path: input.path.clone(),
        kind: input.kind,
        state: AwarenessNodeState::Active,
        authority,
        confidence_bits,
        summary,
        note: dup_opt_string(&input.note),
        redex: dup_opt_string(&input.redex),
        tags: dup_strings(&input.tags),
        debug_session_id: dup_opt_string(&input.debug_session_id),
        checkpoint_id: dup_opt_string(&input.checkpoint_id),
        debug_session_ids: primary_and_evidence(
            &input.debug_session_id,
            &input.evidence.debug_session_ids,
        ),
        checkpoint_ids: primary_and_evidence(&input.checkpoint_id, &input.evidence.checkpoint_ids),
        observation_ids: copy_ids(&input.evidence.observation_ids),
        librarian_node_ids: dup_strings(&input.evidence.librarian_node_ids),
        created_at: now,
        updated_at: now,
        resolved_at: None,
        retired_at: None,
        stale_at: None,
    }
}

/// A copy of a list of ids.
fn copy_ids(v: &Vec<u64>) -> (r: Vec<u64>)
    ensures
        r@ == v@,
{
    let mut r: Vec<u64> = Vec::new();
    let mut i: usize = 0;
    while i < v.len()
        invariant
            i <= v.len(),
            r@ == v@.take(i as int),
        decreases v.len() - i,
    {
        r.push(v[i]);
        proof {
            assert(v@.take(i + 1) =~= v@.take(i as int).push(v@[i as int]));
        }
        i += 1;
    }
    proof {
        assert(v@.take(v@.len() as int) =~= v@);
    }
    r
}

/// The state an operation leaves a node in.
pub open spec fn state_after(op: AwarenessOperation, prev: AwarenessNodeState) -> AwarenessNodeState {
    match op {
        AwarenessOperation::Resolve => AwarenessNodeState::Resolved,
        AwarenessOperation::Verify => AwarenessNodeState::Active,
        AwarenessOperation::Retire => AwarenessNodeState::Retired,
        _ => prev,
    }
}

/// `next` is `prev` after `input` was applied at `now`: given authority,
/// confidence and summary replace the stored ones, a given note or redex
/// replaces the stored one, tags and evidence grow without repeats, the
/// primary debug session and checkpoint are set when missing; resolving
/// and retiring set the state and its time, verifying makes the node
/// active and verified (confidence 1 unless given); the update time is
/// `now`, and identity, kind and creation time stay.
pub open spec fn applied(
    prev: AwarenessNode,
    next: AwarenessNode,
    input: AwarenessSync,
    now: u64,
) -> bool {
    &&& next.id == prev.id
    &&& next.project_slug == prev.project_slug
    &&& next.path == prev.path
    &&& next.kind == prev.kind
    &&& next.created_at == prev.created_at
    &&& next.stale_at == prev.stale_at
    &&& next.authority == if input.operation == AwarenessOperation::Verify {
        AwarenessAuthority::Verified
    } else {
        match input.authority {
            Some(a) => a,
            None => prev.authority,
        }
    }
    &&& next.confidence_bits == if input.operation == AwarenessOperation::Verify {
        match input.confidence_bits {
            Some(c) => clamp_unit_bits(c),
            None => VERIFIED_CONFIDENCE_BITS,
        }
    } else {
        match input.confidence_bits {
            Some(c) => clamp_unit_bits(c),
            None => prev.confidence_bits,
        }
    }
    &&& next.summary@ == match input.summary {
        Some(s) => s@,
        None => prev.summary@,
    }
    &&& next.note == if input.note is Some {
        input.note
    } else {
        prev.note
    }
    &&& next.redex == if input.redex is Some {
        input.redex
    } else {
        prev.redex
    }
    &&& views(next.tags@) == extended_unique(views(prev.tags@), views(input.tags@))
    &&& next.observation_ids@ == extended_unique(
        prev.observation_ids@,
        input.evidence.observation_ids@,
    )
    &&& views(next.debug_session_ids@) == extended_unique(
        views(prev.debug_session_ids@),
        cited(input.debug_session_id, input.evidence.debug_session_ids@),
    )
    &&& views(next.checkpoint_ids@) == extended_unique(
        views(prev.checkpoint_ids@),
        cited(input.checkpoint_id, input.evidence.checkpoint_ids@),
    )
    &&& views(next.librarian_node_ids@) == extended_unique(
        views(prev.librarian_node_ids@),
        views(input.evidence.librarian_node_ids@),
    )
    &&& next.debug_session_id == if prev.debug_session_id is None {
        input.debug_session_id
    } else {
        prev.debug_session_id
    }
    &&& next.checkpoint_id == if prev.checkpoint_id is None {
        input.checkpoint_id
    } else {
        prev.checkpoint_id
    }
    &&& next.state == state_after(input.operation, prev.state)
    &&& next.resolved_at == if input.operation == AwarenessOperation::Resolve {
        Some(now)
    } else {
        prev.resolved_at
    }
    &&& next.retired_at == if input.operation == AwarenessOperation::Retire {
        Some(now)
    } else {
        prev.retired_at
    }
    &&& next.updated_at == now
}

/// Applies an update, resolve, verify or retire to an existing node.
#[verifier::rlimit(40)]
pub fn apply_input_to_node(node: &mut AwarenessNode, input: &AwarenessSync, now: u64)
    ensures
        applied(*old(node), *final(node), *input, now),
{
    if let Some(authority) = input.authority {
        node.authority = authority;
    }
    if let Some(c) = input.confidence_bits {
        node.confidence_bits = clamp_unit_bits(c);
    }
    if let Some(summary) = &input.summary {
        node.summary = summary.clone();
    }
    if input.note.is_some() {
        node.note = dup_opt_string(&input.note);
    }
    if input.redex.is_some() {
        node.redex = dup_opt_string(&input.redex);
    }
    extend_unique(&mut node.tags, input.tags.as_slice());
    extend_unique_u64(&mut node.observation_ids, input.evidence.observation_ids.as_slice());
    let ds = primary_and_evidence(&input.debug_session_id, &input.evidence.debug_session_ids);
    extend_unique(&mut node.debug_session_ids, ds.as_slice());
    let cs = primary_and_evidence(&input.checkpoint_id, &input.evidence.checkpoint_ids);
    extend_unique(&mut node.checkpoint_ids, cs.as_slice());
    extend_unique(&mut node.librarian_node_ids, input.evidence.librarian_node_ids.as_slice());
    if node.debug_session_id.is_none() {
        node.debug_session_id = dup_opt_string(&input.debug_session_id);
    }
    if node.checkpoint_id.is_none() {
        node.checkpoint_id = dup_opt_string(&input.checkpoint_id);
    }
    match input.operation {
        AwarenessOperation::Resolve => {
            node.state = AwarenessNodeState::Resolved;
            node.resolved_at = Some(now);
        },
        AwarenessOperation::Verify => {
            node.authority = AwarenessAuthority::Verified;
            node.confidence_bits = match input.confidence_bits {
                Some(c) => clamp_unit_bits(c),
                None => VERIFIED_CONFIDENCE_BITS,
            };
            node.state = AwarenessNodeState::Active;
        },
        AwarenessOperation::Retire => {
            node.state = AwarenessNodeState::Retired;
            node.retired_at = Some(now);
        },
        _ => {},
    }
    node.updated_at = now;
}

/// The reason a sync reports when its contradiction conflicts.
pub const CONFLICT_REASON: &'static str = "incoming node explicitly contradicts active awareness on the same path";

/// A capture that names nodes it contradicts is checked for conflicts.
pub fn checks_contradictions(input: &AwarenessSync) -> (r: bool)
    ensures
        r == (input.operation == AwarenessOperation::Capture && input.contradicts@.len() > 0),
{
    input.operation == AwarenessOperation::Capture && input.contradicts.len() > 0
}

/// An active node on the input's path is in conflict unless the input
/// supersedes it or targets it; a node without an id always is.
pub open spec fn is_conflict(input: AwarenessSync, node: AwarenessNode) -> bool {
    match node.id {
        None => true,
        Some(id) => !views(input.supersedes@).contains(id@) && !(input.target_node_id matches Some(
            t,
        ) && t@ == id@),
    }
}

/// Positions among the first `k` nodes that are in conflict, in order.
pub open spec fn conflict_positions(input: AwarenessSync, nodes: Seq<AwarenessNode>, k: int) -> Seq<
    int,
>
    decreases k,
{
    if k <= 0 {
        seq![]
    } else {
        let prev = conflict_positions(input, nodes, k - 1);
        if is_conflict(input, nodes[k - 1]) {
            prev.push(k - 1)
        } else {
            prev
        }
    }
}

fn listed_string(list: &Vec<String>, x: &str) -> (r: bool)
    ensures
        r == views(list@).contains(x@),
{
    let mut i: usize = 0;
    while i < list.len()
        invariant
            i <= list.len(),
            forall|j: int| 0 <= j < i ==> list@[j]@ != x@,
        decreases list.len() - i,
    {
        if str_eq(list[i].as_str(), x) {
            proof {
                assert(views(list@)[i as int] == x@);
            }
            return true;
        }
        i += 1;
    }
    proof {
        if views(list@).contains(x@) {
            let j = choose|j: int| 0 <= j < views(list@).len() && views(list@)[j] == x@;
            assert(list@[j]@ == x@);
        }
    }
    false
}

/// Whether `node` conflicts with the input.
fn conflicts_with(input: &AwarenessSync, node: &AwarenessNode) -> (r: bool)
    ensures
        r == is_conflict(*input, *node),
{
    match &node.id {
        None => true,
        Some(id) => {
            if listed_string(&input.supersedes, id.as_str()) {
                return false;
            }
            match &input.target_node_id {
                Some(t) => !str_eq(t.as_str(), id.as_str()),
                None => true,
            }
        },
    }
}

/// Positions of the active nodes on the path that conflict with a capture,
/// in order.
pub fn find_conflicts(input: &AwarenessSync, existing: &Vec<AwarenessNode>) -> (r: Vec<usize>)
    ensures
        r@.map_values(|i: usize| i as int) == conflict_positions(
            *input,
            existing@,
            existing@.len() as int,
        ),
{
    let mut r: Vec<usize> = Vec::new();
    let mut i: usize = 0;
    while i < existing.len()
        invariant
            i <= existing@.len(),
            r@.map_values(|x: usize| x as int) == conflict_positions(*input, existing@, i as int),
        decreases existing@.len() - i,
    {
        if conflicts_with(input, &existing[i]) {
            let ghost before = r@;
            r.push(i);
            assert(r@.map_values(|x: usize| x as int) =~= before.map_values(|x: usize| x as int).push(
                i as int,
            ));
        }
        i += 1;
    }
    r
}

/// Capturing and asking create a node; the other operations change one.
pub fn creates_node(op: AwarenessOperation) -> (r: bool)
    ensures
        r == (op == AwarenessOperation::Capture || op == AwarenessOperation::Question),
{
    op == AwarenessOperation::Capture || op == AwarenessOperation::Question
}

/// The node a capture or question creates: a question is always of the
/// question kind and authority.
pub fn created_node(input: &AwarenessSync, now: u64) -> (r: AwarenessNode)
    ensures
        r.kind == if input.operation == AwarenessOperation::Question {
            AwarenessNodeKind::Question
        } else {
            input.kind
        },
        r.authority == if input.operation == AwarenessOperation::Question {
            AwarenessAuthority::Question
        } else {
            match input.authority {
                Some(a) => a,
                None => spec_default_authority(input.kind),
            }
        },
        r.id is None,
        r.state == AwarenessNodeState::Active,
        r.path@ == input.path@,
        r.project_slug@ == input.project_slug@,
        r.confidence_bits == match input.confidence_bits {
            Some(c) => clamp_unit_bits(c),
            None => DEFAULT_CONFIDENCE_BITS,
        },
        r.summary@ == match input.summary {
            Some(s) => s@,
            None => input.path@,
        },
        r.created_at == now,
        r.updated_at == now,
{
    let mut node = new_node_from_input(input, now);
    if input.operation == AwarenessOperation::Question {
        node.kind = AwarenessNodeKind::Question;
        node.authority = AwarenessAuthority::Question;
    }
    node
}

/// The refusal when an operation that changes a node finds none.
pub fn missing_target(op: AwarenessOperation) -> (r: StoreError)
    ensures
        r matches StoreError::Other(m) && m@ == "awareness "@ + op.spec_name()
            + " requires an existing node"@,
{
    let mut m = "awareness ".to_owned();
    push_str(&mut m, op.name());
    push_str(&mut m, " requires an existing node");
    StoreError::Other(m)
}

/// The id of a synced node, or the refusal when it has none.
pub fn synced_node_id(node: &AwarenessNode) -> (r: Result<String, StoreError>)
    ensures
        match node.id {
            Some(id) => r matches Ok(s) && s@ == id@,
            None => r matches Err(StoreError::Other(m)) && m@
                == "awareness node id missing after sync"@,
        },
{
    match &node.id {
        Some(id) => Ok(id.clone()),
        None => Err(StoreError::Other("awareness node id missing after sync".to_owned())),
    }
}

/// The edges an input asks for, in order: the nodes it supersedes, answers
/// and contradicts.
pub open spec fn edge_plan(input: AwarenessSync) -> Seq<(Seq<char>, AwarenessEdgeKind)> {
    views(input.supersedes@).map_values(|t: Seq<char>| (t, AwarenessEdgeKind::Supersedes))
        + views(input.answers@).map_values(|t: Seq<char>| (t, AwarenessEdgeKind::Answers))
        + views(input.contradicts@).map_values(|t: Seq<char>| (t, AwarenessEdgeKind::Contradicts))
}

fn push_edges(out: &mut Vec<(String, AwarenessEdgeKind)>, targets: &Vec<String>, kind: AwarenessEdgeKind)
    ensures
        final(out)@.map_values(|e: (String, AwarenessEdgeKind)| (e.0@, e.1)) == old(out)@.map_values(
            |e: (String, AwarenessEdgeKind)| (e.0@, e.1),
        ) + views(targets@).map_values(|t: Seq<char>| (t, kind)),
{
    let ghost start = old(out)@.map_values(|e: (String, AwarenessEdgeKind)| (e.0@, e.1));
    let mut i: usize = 0;
    while i < targets.len()
        invariant
            i <= targets@.len(),
            out@.map_values(|e: (String, AwarenessEdgeKind)| (e.0@, e.1)) == start + views(
                targets@.take(i as int),
            ).map_values(|t: Seq<char>| (t, kind)),
        decreases targets@.len() - i,
    {
        let ghost before = out@;
        out.push((targets[i].clone(), kind));
        proof {
            assert(views(targets@.take(i + 1)) =~= views(targets@.take(i as int)).push(
                targets@[i as int]@,
            ));
            assert(out@.map_values(|e: (String, AwarenessEdgeKind)| (e.0@, e.1)) =~= before.map_values(
                |e: (String, AwarenessEdgeKind)| (e.0@, e.1),
            ).push((targets@[i as int]@, kind)));
            assert(views(targets@.take(i + 1)).map_values(|t: Seq<char>| (t, kind)) =~= views(
                targets@.take(i as int),
            ).map_values(|t: Seq<char>| (t, kind)).push((targets@[i as int]@, kind)));
        }
        i += 1;
    }
    proof {
        assert(targets@.take(targets@.len() as int) =~= targets@);
    }
}

/// The edges an input asks for, with their targets.
pub fn planned_edges(input: &AwarenessSync) -> (r: Vec<(String, AwarenessEdgeKind)>)
    ensures
        r@.map_values(|e: (String, AwarenessEdgeKind)| (e.0@, e.1)) == edge_plan(*input),
{
    let mut out: Vec<(String, AwarenessEdgeKind)> = Vec::new();
    push_edges(&mut out, &input.supersedes, AwarenessEdgeKind::Supersedes);
    push_edges(&mut out, &input.answers, AwarenessEdgeKind::Answers);
    push_edges(&mut out, &input.contradicts, AwarenessEdgeKind::Contradicts);
    proof {
        assert(edge_plan(*input) =~= seq![] + views(input.supersedes@).map_values(
            |t: Seq<char>| (t, AwarenessEdgeKind::Supersedes),
        ) + views(input.answers@).map_values(|t: Seq<char>| (t, AwarenessEdgeKind::Answers))
            + views(input.contradicts@).map_values(
            |t: Seq<char>| (t, AwarenessEdgeKind::Contradicts),
        ));
    }
    out
}

/// The statement that relates node `from` to node `to`, once both are
/// valid record keys; the first invalid key is refused.
pub fn edge_sql(from: &str, to: &str) -> (r: Result<String, StoreError>)
    ensures
        is_record_key(from@) && is_record_key(to@) ==> (r matches Ok(s) && s@
            == "RELATE awareness_node:"@ + from@ + "->awareness_edge->awareness_node:"@ + to@
            + "\n             SET kind = $kind, created_at = $created_at"@),
        !is_record_key(from@) ==> (r matches Err(StoreError::Other(m)) && m@
            == "invalid awareness record id: "@ + from@),
        is_record_key(from@) && !is_record_key(to@) ==> (r matches Err(StoreError::Other(m)) && m@
            == "invalid awareness record id: "@ + to@),
{
    validate_record_key(from)?;
    validate_record_key(to)?;
    let mut sql = "RELATE awareness_node:".to_owned();
    push_str(&mut sql, from);
    push_str(&mut sql, "->awareness_edge->awareness_node:");
    push_str(&mut sql, to);
    push_str(&mut sql, "\n             SET kind = $kind, created_at = $created_at");
    Ok(sql)
}

/// A stored relation between two awareness nodes.
#[derive(Debug, Clone)]
pub struct AwarenessEdge {
    pub id: Option<String>,
    pub from_node: String,
    pub to_node: String,
    pub kind: AwarenessEdgeKind,
    pub created_at: u64,
}

impl AwarenessEdge {
    /// An equal copy.
    pub fn dup(&self) -> (r: AwarenessEdge)
        ensures
            r == *self,
    {
        AwarenessEdge {
            id: dup_opt_string(&self.id),
            from_node: self.from_node.clone(),
            to_node: self.to_node.clone(),
            kind: self.kind,
            created_at: self.created_at,
        }
    }
}

/// Positions among the first `k` nodes that lie within `depth` segments of
/// the focus path, in order.
pub open spec fn focus_positions(nodes: Seq<AwarenessNode>, focus: Seq<char>, depth: nat, k: int) -> Seq<
    int,
>
    decreases k,
{
    if k <= 0 {
        seq![]
    } else {
        let prev = focus_positions(nodes, focus, depth, k - 1);
        if spec_path_depth_within(focus, nodes[k - 1].path@, depth) {
            prev.push(k - 1)
        } else {
            prev
        }
    }
}

/// `next` is `prev` as a traversal shows it: without note and redex unless
/// notes are included, without any evidence unless evidence is included,
/// and otherwise the same.
pub open spec fn trimmed(prev: AwarenessNode, next: AwarenessNode, notes: bool, evidence: bool) -> bool {
    &&& next.id == prev.id
    &&& next.project_slug == prev.project_slug
    &&& next.path == prev.path
    &&& next.kind == prev.kind
    &&& next.state == prev.state
    &&& next.authority == prev.authority
    &&& next.confidence_bits == prev.confidence_bits
    &&& next.summary == prev.summary
    &&& next.tags == prev.tags
    &&& next.created_at == prev.created_at
    &&& next.updated_at == prev.updated_at
    &&& next.resolved_at == prev.resolved_at
    &&& next.retired_at == prev.retired_at
    &&& next.stale_at == prev.stale_at
    &&& if notes {
        next.note == prev.note && next.redex == prev.redex
    } else {
        next.note is None && next.redex is None
    }
    &&& if evidence {
        &&& next.observation_ids == prev.observation_ids
        &&& next.librarian_node_ids == prev.librarian_node_ids
        &&& next.debug_session_ids == prev.debug_session_ids
        &&& next.checkpoint_ids == prev.checkpoint_ids
        &&& next.debug_session_id == prev.debug_session_id
        &&& next.checkpoint_id == prev.checkpoint_id
    } else {
        &&& next.observation_ids@.len() == 0
        &&& next.librarian_node_ids@.len() == 0
        &&& next.debug_session_ids@.len() == 0
        &&& next.checkpoint_ids@.len() == 0
        &&& next.debug_session_id is None
        &&& next.checkpoint_id is None
    }
}

/// The nodes a traversal shows: those within `depth` segments of the focus
/// path, in order, trimmed of notes and evidence as asked.
pub fn trim_for_traversal(
    nodes: Vec<AwarenessNode>,
    focus: &str,
    depth: usize,
    include_notes: bool,
    include_evidence: bool,
) -> (r: Vec<AwarenessNode>)
    ensures
        r@.len() == focus_positions(nodes@, focus@, depth as nat, nodes@.len() as int).len(),
        forall|k: int|
            0 <= k < r@.len() ==> trimmed(
                nodes@[focus_positions(nodes@, focus@, depth as nat, nodes@.len() as int)[k]],
                #[trigger] r@[k],
                include_notes,
                include_evidence,
            ),
{
    let ghost all = nodes@;
    let total = nodes.len();
    assert(all.len() == total);
    let mut rest = nodes;
    let mut out: Vec<AwarenessNode> = Vec::new();
    let mut i: usize = 0;
    while rest.len() > 0
        invariant
            i <= all.len(),
            all.len() <= usize::MAX,
            rest@ == all.skip(i as int),
            out@.len() == focus_positions(all, focus@, depth as nat, i as int).len(),
            forall|k: int|
                0 <= k < out@.len() ==> trimmed(
                    all[focus_positions(all, focus@, depth as nat, i as int)[k]],
                    #[trigger] out@[k],
                    include_notes,
                    include_evidence,
                ),
            forall|k: int|
                0 <= k < focus_positions(all, focus@, depth as nat, i as int).len() ==> 0
                    <= #[trigger] focus_positions(all, focus@, depth as nat, i as int)[k] < i,
        decreases rest@.len(),
    {
        let ghost fp = focus_positions(all, focus@, depth as nat, i as int);
        assert(i < all.len());
        let mut node = rest.remove(0);
        assert(node == all[i as int]);
        assert(rest@ =~= all.skip(i + 1));
        if path_depth_within(focus, node.path.as_str(), depth) {
            let ghost before = node;
            if !include_notes {
                node.note = None;
                node.redex = None;
            }
            if !include_evidence {
                node.observation_ids.clear();
                node.librarian_node_ids.clear();
                node.debug_session_ids.clear();
                node.checkpoint_ids.clear();
                node.debug_session_id = None;
                node.checkpoint_id = None;
            }
            assert(trimmed(before, node, include_notes, include_evidence));
            out.push(node);
            assert(focus_positions(all, focus@, depth as nat, i + 1) == fp.push(i as int));
        }
        i += 1;
    }
    proof {
        assert(all.skip(i as int).len() == 0);
    }
    out
}

/// The ids of the nodes that have one.
pub open spec fn node_ids(nodes: Seq<AwarenessNode>) -> Seq<Seq<char>>
    decreases nodes.len(),
{
    if nodes.len() == 0 {
        seq![]
    } else {
        let prev = node_ids(nodes.drop_last());
        match nodes.last().id {
            Some(id) => prev.push(id@),
            None => prev,
        }
    }
}

/// The distinct ids of the nodes, in increasing order.
pub fn traversal_ids(nodes: &Vec<AwarenessNode>) -> (r: Vec<String>)
    ensures
        crate::text::strictly_sorted(views(r@)),
        forall|y: Seq<char>| #[trigger] views(r@).contains(y) <==> node_ids(nodes@).contains(y),
{
    let mut ids: Vec<String> = Vec::new();
    let mut i: usize = 0;
    while i < nodes.len()
        invariant
            i <= nodes@.len(),
            crate::text::strictly_sorted(views(ids@)),
            forall|y: Seq<char>| #[trigger] views(ids@).contains(y) <==> node_ids(
                nodes@.take(i as int),
            ).contains(y),
        decreases nodes@.len() - i,
    {
        proof {
            assert(nodes@.take(i + 1).drop_last() =~= nodes@.take(i as int));
            assert(nodes@.take(i + 1).last() == nodes@[i as int]);
        }
        match &nodes[i].id {
            Some(id) => {
                crate::text::insert_sorted(&mut ids, id.as_str());
                proof {
                    let p = node_ids(nodes@.take(i as int));
                    assert(node_ids(nodes@.take(i + 1)) == p.push(id@));
                    assert forall|y: Seq<char>| #[trigger] p.push(id@).contains(y) <==> (
                    p.contains(y) || y == id@) by {
                        if p.push(id@).contains(y) {
                            let j = choose|j: int| 0 <= j < p.push(id@).len() && p.push(id@)[j] == y;
                            if j < p.len() {
                                assert(p[j] == y);
                            }
                        }
                        if p.contains(y) {
                            let j = choose|j: int| 0 <= j < p.len() && p[j] == y;
                            assert(p.push(id@)[j] == y);
                        }
                        if y == id@ {
                            assert(p.push(id@)[p.len() as int] == y);
                        }
                    }
                }
            },
            None => {
                assert(node_ids(nodes@.take(i + 1)) == node_ids(nodes@.take(i as int)));
            },
        }
        i += 1;
    }
    proof {
        assert(nodes@.take(nodes@.len() as int) =~= nodes@);
    }
    ids
}

/// The edges among the first `k` whose both ends are listed, in order.
pub open spec fn edges_among(edges: Seq<AwarenessEdge>, ids: Seq<Seq<char>>, k: int) -> Seq<
    AwarenessEdge,
>
    decreases k,
{
    if k <= 0 {
        seq![]
    } else {
        let prev = edges_among(edges, ids, k - 1);
        if ids.contains(edges[k - 1].from_node@) && ids.contains(edges[k - 1].to_node@) {
            prev.push(edges[k - 1])
        } else {
            prev
        }
    }
}

/// The edges of a traversal: those between two of its nodes, in order.
pub fn edges_within(edges: &Vec<AwarenessEdge>, ids: &Vec<String>) -> (r: Vec<AwarenessEdge>)
    ensures
        r@ == edges_among(edges@, views(ids@), edges@.len() as int),
{
    let mut out: Vec<AwarenessEdge> = Vec::new();
    let mut i: usize = 0;
    while i < edges.len()
        invariant
            i <= edges@.len(),
            out@ == edges_among(edges@, views(ids@), i as int),
        decreases edges@.len() - i,
    {
        let e = &edges[i];
        if listed_string(ids, e.from_node.as_str()) && listed_string(ids, e.to_node.as_str()) {
            out.push(e.dup());
        }
        i += 1;
    }
    out
}

} // verus!
verus! {

/// What a sync does once the nodes it depends on are read.
#[derive(Debug)]
pub enum SyncStep {
    /// Refuse: the capture contradicts the active nodes at these positions.
    Conflict(Vec<usize>),
    /// Create the node `created_node` builds from the input.
    Create,
    /// Store this changed node.
    Update(AwarenessNode),
}

/// The sync refuses a capture that contradicts active nodes on its path.
pub open spec fn refuses(input: AwarenessSync, active_on_path: Seq<AwarenessNode>) -> bool {
    &&& input.operation == AwarenessOperation::Capture
    &&& input.contradicts@.len() > 0
    &&& conflict_positions(input, active_on_path, active_on_path.len() as int).len() > 0
}

/// The decision of a sync at `now`, given the active nodes on the input's
/// path (read for a capture that contradicts) and the node it targets (read
/// for an update, resolve, verify or retire): a conflicting capture is
/// refused with the conflicting positions; a capture or question creates a
/// node; any other operation changes its target, and is refused when there
/// is none.
pub fn decide_sync(
    input: &AwarenessSync,
    active_on_path: &Vec<AwarenessNode>,
    target: Option<AwarenessNode>,
    now: u64,
) -> (r: Result<SyncStep, StoreError>)
    ensures
        refuses(*input, active_on_path@) ==> (r matches Ok(SyncStep::Conflict(p)) && p@.map_values(
            |i: usize| i as int,
        ) == conflict_positions(*input, active_on_path@, active_on_path@.len() as int)),
        !refuses(*input, active_on_path@) && (input.operation == AwarenessOperation::Capture
            || input.operation == AwarenessOperation::Question) ==> r matches Ok(SyncStep::Create),
        !refuses(*input, active_on_path@) && !(input.operation == AwarenessOperation::Capture
            || input.operation == AwarenessOperation::Question) ==> match target {
            Some(t) => r matches Ok(SyncStep::Update(n)) && applied(t, n, *input, now),
            None => r matches Err(StoreError::Other(m)) && m@ == "awareness "@
                + input.operation.spec_name() + " requires an existing node"@,
        },
{
    if checks_contradictions(input) {
        let conflicts = find_conflicts(input, active_on_path);
        if conflicts.len() > 0 {
            return Ok(SyncStep::Conflict(conflicts));
        }
    }
    if creates_node(input.operation) {
        return Ok(SyncStep::Create);
    }
    match target {
        Some(t) => {
            let mut node = t;
            apply_input_to_node(&mut node, input, now);
            Ok(SyncStep::Update(node))
        },
        None => Err(missing_target(input.operation)),
    }
}

} // verus!
