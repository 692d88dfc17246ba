use std::collections::hash_map::DefaultHasher;
use std::hash::{Hash, Hasher};

use daemon8::store::semantic::{
    chunk_text, embedding_slots, observation_text, stable_hash, upsert_action, UpsertAction,
    CHUNK_OVERLAP, CHUNK_SIZE, EMBEDDING_DIMENSIONS,
};

fn std_hash(s: &str) -> u64 {
    let mut h = DefaultHasher::new();
    s.hash(&mut h);
    h.finish()
}

#[test]
fn observation_text_joins_lines() {
    assert_eq!(observation_text("{o}", "log", "{d}", Some("f.rs")), "{o}\nlog\n{d}\nf.rs");
    assert_eq!(observation_text("{o}", "log", "{d}", None), "{o}\nlog\n{d}");
}

#[test]
fn short_content_is_one_chunk() {
    assert_eq!(chunk_text("hello"), vec!["hello".to_string()]);
    assert_eq!(chunk_text(""), vec!["".to_string()]);
    let exact: String = "a".repeat(CHUNK_SIZE);
    assert_eq!(chunk_text(&exact).len(), 1);
}

#[test]
fn long_content_chunks_overlap() {
    let text: String = (0..2500).map(|i| char::from(b'a' + (i % 26) as u8)).collect();
    let chunks = chunk_text(&text);
    assert_eq!(chunks.len(), 3);
    assert_eq!(chunks[0], text[0..1200]);
    assert_eq!(chunks[1], text[1000..2200]);
    assert_eq!(chunks[2], text[2000..2500]);
    assert_eq!(CHUNK_OVERLAP, 200);
}

#[test]
fn embedding_slots_follow_token_hashes() {
    let slots = embedding_slots("Tokio runtime, tokio!");
    assert_eq!(slots.len(), 3);
    let h = std_hash("tokio") as usize;
    assert_eq!(slots[0], (h % EMBEDDING_DIMENSIONS, (h / EMBEDDING_DIMENSIONS) % 2 == 0));
    assert_eq!(slots[0], slots[2]);
    let h2 = std_hash("runtime") as usize;
    assert_eq!(slots[1], (h2 % EMBEDDING_DIMENSIONS, (h2 / EMBEDDING_DIMENSIONS) % 2 == 0));
    assert!(embedding_slots("  --  ").is_empty());
}

#[test]
fn stable_hash_is_sixteen_hex_digits_of_default_hash() {
    let s = "fn main() {}";
    assert_eq!(stable_hash(s), format!("{:016x}", std_hash(s)));
    assert_eq!(stable_hash(s).len(), 16);
    assert_ne!(stable_hash("a"), stable_hash("b"));
}

#[test]
fn upsert_actions() {
    assert_eq!(upsert_action("  ", "h", None), UpsertAction::Skip);
    assert_eq!(upsert_action("x", "h", None), UpsertAction::Insert);
    assert_eq!(upsert_action("x", "h", Some((4, "h".to_string()))), UpsertAction::Unchanged);
    assert_eq!(upsert_action("x", "h", Some((4, "g".to_string()))), UpsertAction::Update(4));
}

#[test]
fn storing_the_same_document_twice_writes_nothing_the_second_time() {
    let content = "fn main() {}";
    let hash = stable_hash(content);
    let first = upsert_action(content, &hash, Some((4, "old".to_string())));
    assert_eq!(first, UpsertAction::Update(4));
    let second = upsert_action(content, &hash, Some((4, hash.clone())));
    assert_eq!(second, UpsertAction::Unchanged);
    assert_eq!(upsert_action("   ", &hash, None), UpsertAction::Skip);
}
