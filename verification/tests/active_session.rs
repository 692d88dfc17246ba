use daemon8::store::active_session::{ActiveDebugSession, ActiveSessionState};

fn make_session(id: &str, project: &str, ts: u64) -> ActiveDebugSession {
    ActiveDebugSession {
        id: id.into(),
        project_slug: project.into(),
        started_at_ns: ts,
        last_activity_ns: ts,
        agent_id: ":test/plan-agent>".into(),
        feature: None,
    }
}

#[test]
fn empty_by_default() {
    let s = ActiveSessionState::new();
    assert!(s.current_session().is_none());
    assert!(s.current_checkpoint().is_none());
}

#[test]
fn set_and_clear() {
    let mut s = ActiveSessionState::new();
    s.set_session(Some(make_session("ds_1", "daemon8", 1_000)));
    s.set_checkpoint(Some("cp_42".to_string()));
    let cur = s.current_session().unwrap();
    assert_eq!(&*cur.id, "ds_1");
    assert_eq!(s.current_checkpoint().unwrap().as_str(), "cp_42");

    s.clear();
    assert!(s.current_session().is_none());
    assert!(s.current_checkpoint().is_none());
}

#[test]
fn active_session_touch_updates_last_activity() {
    let mut s = make_session("x", "p", 1_000);
    assert_eq!(s.last_activity(), 1_000);
    s.touch(9_999);
    assert_eq!(s.last_activity(), 9_999);
}

#[test]
fn touch_through_state_is_seen_by_later_reads() {
    let mut s = ActiveSessionState::new();
    s.set_session(Some(make_session("x", "p", 1_000)));
    s.set_checkpoint(Some("cp_1".to_string()));
    s.touch_session(5_000);
    assert_eq!(s.current_session().unwrap().last_activity(), 5_000);
    assert_eq!(s.current_checkpoint().unwrap().as_str(), "cp_1");

    let mut empty = ActiveSessionState::new();
    empty.touch_session(5_000);
    assert!(empty.current_session().is_none());
}
