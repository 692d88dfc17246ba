use daemon8::daemon::relay::{relay_due, relay_message, relay_stream_url};

#[test]
fn relay_formats_exception_from_app() {
    let m = relay_message(
        r#"{"severity":"error","kind":{"type":"exception","message":"boom"},"origin":{"type":"application","name":"web"},"data":{}}"#,
    )
    .unwrap();
    assert_eq!(m.content, "[error] exception from app:web: boom");
    assert_eq!(m.severity, "error");
    assert_eq!(m.kind, "exception");
    assert_eq!(m.origin, "app:web");
}

#[test]
fn relay_falls_back_for_missing_fields() {
    let m = relay_message(r#"{"origin":{"type":"browser","tab_id":"t1"},"data":{"msg":"hi"}}"#).unwrap();
    assert_eq!(m.content, "[info] log from browser:t1: hi");
    let m = relay_message(r#"{"severity":"warn","kind":{"type":"log"},"data":{"message":"disk"}}"#).unwrap();
    assert_eq!(m.content, "[warn] log from unknown: disk");
    let m = relay_message(r#"{"severity":"warn"}"#).unwrap();
    assert_eq!(m.content, "[warn] log from unknown: (no message)");
    assert!(relay_message("not json").is_none());
}

#[test]
fn relay_throttle_and_stream() {
    assert!(!relay_due(0));
    assert!(relay_due(1));
    assert_eq!(relay_stream_url(9077), "http://localhost:9077/api/stream?severity_min=warn");
}
