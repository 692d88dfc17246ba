use daemon8::store::error::StoreError;
use daemon8::store::record_id::{
    cursor_key, embedding_profile_key, validated_cursor_key, ledger_key, strip_named_prefix, strip_table_prefix, validate_cursor_identity,
};
use sha2::{Digest, Sha256};

fn hex_of(data: &[u8]) -> String {
    Sha256::digest(data).iter().map(|b| format!("{b:02x}")).collect()
}

#[test]
fn table_prefix_is_stripped_once() {
    assert_eq!(strip_table_prefix("memory:`abc`"), "abc");
    assert_eq!(strip_table_prefix("memory:abc:def"), "abc:def");
    assert_eq!(strip_table_prefix("plain"), "plain");
    assert_eq!(strip_table_prefix("``x``"), "x");
    assert_eq!(strip_named_prefix("catalog_node:n1", "catalog_node"), "n1");
    assert_eq!(strip_named_prefix("catalog_edge:n1", "catalog_node"), "catalog_edge:n1");
}

#[test]
fn cursor_identity_fields_must_not_be_blank() {
    assert!(validate_cursor_identity("root", "src", "inst").is_ok());
    match validate_cursor_identity("root", "  ", "inst") {
        Err(StoreError::Other(m)) => assert_eq!(m, "cursor identity field `source` must not be empty"),
        _ => panic!("expected refusal"),
    }
    match validate_cursor_identity("", "", "") {
        Err(StoreError::Other(m)) => {
            assert_eq!(m, "cursor identity field `scope_root` must not be empty")
        }
        _ => panic!("expected refusal"),
    }
    match validate_cursor_identity("r", "s", "\t") {
        Err(StoreError::Other(m)) => {
            assert_eq!(m, "cursor identity field `source_instance` must not be empty")
        }
        _ => panic!("expected refusal"),
    }
}

#[test]
fn cursor_key_hashes_parts_with_separators() {
    let expected = hex_of(b"cursor_state\0root\0src\0inst\0");
    assert_eq!(cursor_key("root", "src", "inst"), expected);
    assert_eq!(cursor_key("root", "src", "inst").len(), 64);
    assert_ne!(cursor_key("ro", "otsrc", "inst"), expected);
    assert_eq!(ledger_key(&["a", "b"]), hex_of(b"a\0b\0"));
    assert_eq!(ledger_key(&[]), hex_of(b""));
}

#[test]
fn embedding_profile_keys_are_trimmed_and_required() {
    assert_eq!(embedding_profile_key("  openai:small ").unwrap(), "openai:small");
    match embedding_profile_key("   ") {
        Err(StoreError::Other(m)) => {
            assert_eq!(m, "embedding_profile.id must be non-empty (use '<provider>:<model>')")
        }
        _ => panic!("expected refusal"),
    }
}

#[test]
fn validated_cursor_key_checks_identity_first() {
    assert_eq!(validated_cursor_key("root", "src", "inst").unwrap(), cursor_key("root", "src", "inst"));
    match validated_cursor_key("root", "", "inst") {
        Err(StoreError::Other(m)) => assert_eq!(m, "cursor identity field `source` must not be empty"),
        _ => panic!("expected refusal"),
    }
}
