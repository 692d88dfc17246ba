use daemon8::store::awareness::{
    collect_primary_and_evidence, default_authority, extend_unique, extend_unique_u64,
    listed_states, manifest_plan, path_depth_within, query_nodes_sql, validate_record_key,
    AwarenessAuthority, AwarenessNodeKind, AwarenessNodeState, ManifestNode,
};
use daemon8::store::error::StoreError;
use daemon8::store::sql::BindValue;

fn node(kind: AwarenessNodeKind, state: AwarenessNodeState, path: &str) -> ManifestNode {
    ManifestNode { kind, state, path: path.to_string() }
}

#[test]
fn record_keys_are_ascii_words() {
    assert!(validate_record_key("node_1-a").is_ok());
    assert!(validate_record_key("").is_err());
    match validate_record_key("a:b") {
        Err(StoreError::Other(m)) => assert_eq!(m, "invalid awareness record id: a:b"),
        _ => panic!("expected refusal"),
    }
    assert!(validate_record_key("é").is_err());
}

#[test]
fn default_authorities() {
    assert_eq!(default_authority(AwarenessNodeKind::Question), AwarenessAuthority::Question);
    assert_eq!(default_authority(AwarenessNodeKind::Blocker), AwarenessAuthority::Question);
    assert_eq!(default_authority(AwarenessNodeKind::Hypothesis), AwarenessAuthority::Hypothesis);
    assert_eq!(default_authority(AwarenessNodeKind::Decision), AwarenessAuthority::Accepted);
    assert_eq!(default_authority(AwarenessNodeKind::Constraint), AwarenessAuthority::Accepted);
    assert_eq!(default_authority(AwarenessNodeKind::Fact), AwarenessAuthority::Inferred);
    assert_eq!(default_authority(AwarenessNodeKind::Objective), AwarenessAuthority::Inferred);
    assert_eq!(default_authority(AwarenessNodeKind::Risk), AwarenessAuthority::Inferred);
}

#[test]
fn extend_unique_skips_repeats() {
    let mut v = vec!["a".to_string()];
    extend_unique(&mut v, &["b".to_string(), "a".to_string(), "b".to_string(), "c".to_string()]);
    assert_eq!(v, vec!["a".to_string(), "b".to_string(), "c".to_string()]);
    let mut n = vec![1u64];
    extend_unique_u64(&mut n, &[1, 2, 2, 3]);
    assert_eq!(n, vec![1, 2, 3]);
    let refs = collect_primary_and_evidence(Some("p"), &["e".to_string(), "p".to_string()]);
    assert_eq!(refs, vec!["p".to_string(), "e".to_string()]);
    assert!(collect_primary_and_evidence(None, &[]).is_empty());
}

#[test]
fn path_focus_depth() {
    assert!(path_depth_within("src", "src", 0));
    assert!(path_depth_within("src", "src/a", 1));
    assert!(!path_depth_within("src", "src/a/b", 1));
    assert!(path_depth_within("src", "src/a//b/", 2));
    assert!(!path_depth_within("src", "srcx/a", 5));
    assert!(!path_depth_within("src", "lib", 5));
}

#[test]
fn manifest_summarises_nodes() {
    let nodes = vec![
        node(AwarenessNodeKind::Objective, AwarenessNodeState::Active, "b"),
        node(AwarenessNodeKind::Question, AwarenessNodeState::Active, "a"),
        node(AwarenessNodeKind::Hypothesis, AwarenessNodeState::Active, "z"),
        node(AwarenessNodeKind::Risk, AwarenessNodeState::Active, "c"),
        node(AwarenessNodeKind::Fact, AwarenessNodeState::Stale, "d"),
        node(AwarenessNodeKind::Fact, AwarenessNodeState::Conflicted, "a"),
        node(AwarenessNodeKind::Decision, AwarenessNodeState::Resolved, "q"),
    ];
    let plan = manifest_plan(&nodes);
    assert_eq!(
        plan.counts_by_kind,
        vec![
            ("decision".to_string(), 1),
            ("fact".to_string(), 2),
            ("hypothesis".to_string(), 1),
            ("objective".to_string(), 1),
            ("question".to_string(), 1),
            ("risk".to_string(), 1),
        ]
    );
    assert_eq!(plan.active_objectives, vec![0]);
    assert_eq!(plan.open_questions, vec![1]);
    assert_eq!(plan.active_hypotheses, vec![2]);
    assert_eq!(plan.stale_risk_count, 2);
    assert_eq!(plan.conflict_count, 1);
    assert_eq!(
        plan.suggested_focus_paths,
        vec!["a".to_string(), "b".to_string(), "c".to_string(), "d".to_string()]
    );
}

#[test]
fn manifest_caps_lists() {
    let mut nodes = Vec::new();
    for i in 0..12 {
        nodes.push(node(AwarenessNodeKind::Objective, AwarenessNodeState::Active, &format!("p{i:02}")));
    }
    let plan = manifest_plan(&nodes);
    assert_eq!(plan.active_objectives, vec![0, 1, 2, 3, 4]);
    assert_eq!(plan.suggested_focus_paths.len(), 8);
    assert_eq!(plan.suggested_focus_paths[0], "p00");
    assert_eq!(plan.suggested_focus_paths[7], "p07");
    assert_eq!(plan.counts_by_kind, vec![("objective".to_string(), 12)]);
}

#[test]
fn node_query_statements() {
    let states = listed_states(false);
    assert_eq!(states, vec![AwarenessNodeState::Active, AwarenessNodeState::Conflicted]);
    assert!(listed_states(true).is_empty());
    let (sql, binds) = query_nodes_sql("proj", Some("src"), &states, 500);
    assert_eq!(
        sql,
        "SELECT * FROM awareness_node WHERE project_slug = $project_slug AND state IN $states AND (path = $focus_path OR string::starts_with(path, $path_prefix)) ORDER BY updated_at DESC LIMIT 500"
    );
    assert_eq!(binds.len(), 4);
    match &binds[1].1 {
        BindValue::TextList(l) => assert_eq!(l, &vec!["active".to_string(), "conflicted".to_string()]),
        _ => panic!("expected list"),
    }
    match &binds[3].1 {
        BindValue::Text(t) => assert_eq!(t, "src/"),
        _ => panic!("expected text"),
    }
    let (sql, binds) = query_nodes_sql("proj", None, &vec![], 10);
    assert_eq!(
        sql,
        "SELECT * FROM awareness_node WHERE project_slug = $project_slug ORDER BY updated_at DESC LIMIT 10"
    );
    assert_eq!(binds.len(), 1);
}
