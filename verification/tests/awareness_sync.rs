use daemon8::store::awareness::{AwarenessAuthority, AwarenessNodeKind, AwarenessNodeState};
use daemon8::store::awareness_sync::{
    apply_input_to_node, checks_contradictions, clamp_unit_bits, created_node, creates_node, edge_sql,
    edges_within, find_conflicts, missing_target, new_node_from_input, planned_edges,
    decide_sync, synced_node_id, traversal_ids, trim_for_traversal, AwarenessEdge,
    AwarenessEdgeKind, SyncStep,
    AwarenessEvidence, AwarenessOperation, AwarenessSync, DEFAULT_CONFIDENCE_BITS,
    VERIFIED_CONFIDENCE_BITS,
};
use daemon8::store::error::StoreError;

fn sync(path: &str, kind: AwarenessNodeKind, summary: &str) -> AwarenessSync {
    AwarenessSync {
        operation: AwarenessOperation::Capture,
        project_slug: "daemon8".to_string(),
        path: path.to_string(),
        kind,
        authority: None,
        confidence_bits: Some(0.7f64.to_bits()),
        summary: Some(summary.to_string()),
        note: Some("internal note".to_string()),
        redex: Some("! @. +".to_string()),
        tags: vec!["domain:awareness".to_string()],
        debug_session_id: Some("debug-1".to_string()),
        checkpoint_id: Some("checkpoint-1".to_string()),
        evidence: AwarenessEvidence {
            observation_ids: vec![42],
            debug_session_ids: vec!["debug-1".to_string()],
            checkpoint_ids: vec!["checkpoint-1".to_string()],
            librarian_node_ids: vec!["catalog-1".to_string()],
        },
        target_node_id: None,
        supersedes: Vec::new(),
        answers: Vec::new(),
        contradicts: Vec::new(),
    }
}

#[test]
fn capture_builds_active_node_with_evidence() {
    let input = sync("debug/frontend/root-cause", AwarenessNodeKind::Hypothesis, "Hydration");
    let node = new_node_from_input(&input, 7);
    assert_eq!(node.path, "debug/frontend/root-cause");
    assert_eq!(node.kind, AwarenessNodeKind::Hypothesis);
    assert_eq!(node.state, AwarenessNodeState::Active);
    assert_eq!(node.authority, AwarenessAuthority::Hypothesis);
    assert_eq!(node.observation_ids, vec![42]);
    assert_eq!(node.debug_session_ids, vec!["debug-1".to_string()]);
    assert_eq!(node.checkpoint_ids, vec!["checkpoint-1".to_string()]);
    assert_eq!(node.created_at, 7);
    assert_eq!(f64::from_bits(node.confidence_bits), 0.7);

    let mut bare = input.clone();
    bare.summary = None;
    bare.confidence_bits = None;
    let node = new_node_from_input(&bare, 7);
    assert_eq!(node.summary, "debug/frontend/root-cause");
    assert_eq!(node.confidence_bits, DEFAULT_CONFIDENCE_BITS);
    assert_eq!(f64::from_bits(DEFAULT_CONFIDENCE_BITS), 0.5);
}

#[test]
fn question_operation_forces_question_kind() {
    let mut input = sync("q", AwarenessNodeKind::Fact, "why");
    input.operation = AwarenessOperation::Question;
    input.authority = Some(AwarenessAuthority::Accepted);
    let node = created_node(&input, 1);
    assert_eq!(node.kind, AwarenessNodeKind::Question);
    assert_eq!(node.authority, AwarenessAuthority::Question);
    assert!(creates_node(AwarenessOperation::Question));
    assert!(creates_node(AwarenessOperation::Capture));
    assert!(!creates_node(AwarenessOperation::Verify));
}

#[test]
fn verify_fact_updates_authority_confidence_and_evidence() {
    let mut node = new_node_from_input(&sync("f", AwarenessNodeKind::Fact, "mounts first"), 1);
    let mut verify = sync("f", AwarenessNodeKind::Fact, "mounts first");
    verify.operation = AwarenessOperation::Verify;
    verify.confidence_bits = Some(0.95f64.to_bits());
    verify.evidence.observation_ids = vec![43, 44, 42];
    apply_input_to_node(&mut node, &verify, 9);
    assert_eq!(node.authority, AwarenessAuthority::Verified);
    assert_eq!(f64::from_bits(node.confidence_bits), 0.95);
    assert_eq!(node.observation_ids, vec![42, 43, 44]);
    assert_eq!(node.updated_at, 9);
    assert_eq!(node.created_at, 1);

    verify.confidence_bits = None;
    apply_input_to_node(&mut node, &verify, 10);
    assert_eq!(node.confidence_bits, VERIFIED_CONFIDENCE_BITS);
}

#[test]
fn resolve_and_retire_set_state_and_time() {
    let mut q = new_node_from_input(&sync("q", AwarenessNodeKind::Question, "?"), 1);
    let mut resolve = sync("q", AwarenessNodeKind::Question, "answered");
    resolve.operation = AwarenessOperation::Resolve;
    resolve.tags = vec!["domain:awareness".to_string(), "new".to_string()];
    apply_input_to_node(&mut q, &resolve, 5);
    assert_eq!(q.state, AwarenessNodeState::Resolved);
    assert_eq!(q.resolved_at, Some(5));
    assert_eq!(q.summary, "answered");
    assert_eq!(q.tags, vec!["domain:awareness".to_string(), "new".to_string()]);

    let mut retire = sync("q", AwarenessNodeKind::Question, "gone");
    retire.operation = AwarenessOperation::Retire;
    apply_input_to_node(&mut q, &retire, 6);
    assert_eq!(q.state, AwarenessNodeState::Retired);
    assert_eq!(q.retired_at, Some(6));
}

#[test]
fn explicit_contradiction_detects_conflict_on_same_path() {
    let mut first = new_node_from_input(&sync("c", AwarenessNodeKind::Fact, "A"), 1);
    first.id = Some("n1".to_string());
    let mut other = new_node_from_input(&sync("c", AwarenessNodeKind::Fact, "B"), 1);
    other.id = Some("n2".to_string());
    let mut contradiction = sync("c", AwarenessNodeKind::Fact, "not A");
    contradiction.contradicts = vec!["n1".to_string()];
    assert!(checks_contradictions(&contradiction));
    assert_eq!(find_conflicts(&contradiction, &vec![first.clone(), other.clone()]), vec![0, 1]);
    contradiction.supersedes = vec!["n1".to_string()];
    contradiction.target_node_id = Some("n2".to_string());
    assert!(find_conflicts(&contradiction, &vec![first, other]).is_empty());
    assert!(!checks_contradictions(&sync("c", AwarenessNodeKind::Fact, "x")));
}

#[test]
fn edges_are_planned_in_order() {
    let mut input = sync("a", AwarenessNodeKind::Fact, "because");
    input.supersedes = vec!["s1".to_string()];
    input.answers = vec!["q1".to_string(), "q2".to_string()];
    input.contradicts = vec!["c1".to_string()];
    let edges = planned_edges(&input);
    assert_eq!(
        edges,
        vec![
            ("s1".to_string(), AwarenessEdgeKind::Supersedes),
            ("q1".to_string(), AwarenessEdgeKind::Answers),
            ("q2".to_string(), AwarenessEdgeKind::Answers),
            ("c1".to_string(), AwarenessEdgeKind::Contradicts),
        ]
    );
    assert_eq!(
        edge_sql("a", "b").unwrap(),
        "RELATE awareness_node:a->awareness_edge->awareness_node:b\n             SET kind = $kind, created_at = $created_at"
    );
    match edge_sql("a", "b;DROP") {
        Err(StoreError::Other(m)) => assert_eq!(m, "invalid awareness record id: b;DROP"),
        _ => panic!("expected refusal"),
    }
}

#[test]
fn missing_target_and_id_errors() {
    match missing_target(AwarenessOperation::Resolve) {
        StoreError::Other(m) => assert_eq!(m, "awareness resolve requires an existing node"),
        _ => panic!("expected other"),
    }
    let node = new_node_from_input(&sync("x", AwarenessNodeKind::Fact, "y"), 1);
    assert!(synced_node_id(&node).is_err());
}

#[test]
fn traversal_trims_and_filters() {
    let mut a = new_node_from_input(&sync("debug/frontend/answer", AwarenessNodeKind::Fact, "b"), 1);
    a.id = Some("n2".to_string());
    let mut q = new_node_from_input(&sync("debug/frontend/question", AwarenessNodeKind::Question, "w"), 1);
    q.id = Some("n1".to_string());
    let far = new_node_from_input(&sync("debug/frontend/x/y/z", AwarenessNodeKind::Fact, "far"), 1);
    let kept = trim_for_traversal(vec![a, far, q], "debug/frontend", 2, false, false);
    assert_eq!(kept.len(), 2);
    assert!(kept[0].note.is_none());
    assert!(kept[0].observation_ids.is_empty());
    assert!(kept[1].debug_session_id.is_none());
    let ids = traversal_ids(&kept);
    assert_eq!(ids, vec!["n1".to_string(), "n2".to_string()]);
    let edges = vec![
        AwarenessEdge {
            id: None,
            from_node: "n2".to_string(),
            to_node: "n1".to_string(),
            kind: AwarenessEdgeKind::Answers,
            created_at: 1,
        },
        AwarenessEdge {
            id: None,
            from_node: "n2".to_string(),
            to_node: "n9".to_string(),
            kind: AwarenessEdgeKind::Supersedes,
            created_at: 1,
        },
    ];
    let within = edges_within(&edges, &ids);
    assert_eq!(within.len(), 1);
    assert_eq!(within[0].kind, AwarenessEdgeKind::Answers);

    let full = trim_for_traversal(kept, "debug/frontend", 2, true, true);
    assert_eq!(full.len(), 2);
}

#[test]
fn confidence_is_clamped_like_f64_clamp() {
    for x in [
        -3.5f64,
        -0.0,
        0.0,
        0.25,
        0.95,
        1.0,
        1.5,
        f64::INFINITY,
        f64::NEG_INFINITY,
        f64::MIN_POSITIVE,
    ] {
        assert_eq!(clamp_unit_bits(x.to_bits()), x.clamp(0.0, 1.0).to_bits(), "{x}");
    }
    assert!(f64::from_bits(clamp_unit_bits(f64::NAN.to_bits())).is_nan());

    let mut input = sync("a.rs", AwarenessNodeKind::Fact, "s");
    input.confidence_bits = Some(2.0f64.to_bits());
    let node = new_node_from_input(&input, 10);
    assert_eq!(f64::from_bits(node.confidence_bits), 1.0);
}

#[test]
fn sync_decision_refuses_creates_or_updates() {
    let mut existing = new_node_from_input(&sync("p", AwarenessNodeKind::Fact, "old"), 1);
    existing.id = Some("n1".to_string());

    let mut contradiction = sync("p", AwarenessNodeKind::Fact, "new");
    contradiction.contradicts = vec!["n1".to_string()];
    match decide_sync(&contradiction, &vec![existing.clone()], None, 5) {
        Ok(SyncStep::Conflict(p)) => assert_eq!(p, vec![0]),
        other => panic!("unexpected {other:?}"),
    }
    contradiction.supersedes = vec!["n1".to_string()];
    assert!(matches!(
        decide_sync(&contradiction, &vec![existing.clone()], None, 5),
        Ok(SyncStep::Create)
    ));

    let mut resolve = sync("p", AwarenessNodeKind::Fact, "done");
    resolve.operation = AwarenessOperation::Resolve;
    match decide_sync(&resolve, &vec![], Some(existing), 9) {
        Ok(SyncStep::Update(n)) => {
            assert_eq!(n.state, AwarenessNodeState::Resolved);
            assert_eq!(n.resolved_at, Some(9));
        }
        other => panic!("unexpected {other:?}"),
    }
    match decide_sync(&resolve, &vec![], None, 9) {
        Err(StoreError::Other(m)) => assert_eq!(m, "awareness resolve requires an existing node"),
        other => panic!("unexpected {other:?}"),
    }
}
