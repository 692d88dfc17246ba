//! The agent-memory store: session state, validation, query building and
//! record helpers.
pub mod active_session;
pub mod sql;
pub mod surreal;
pub mod envelope;
pub mod error;
pub mod bookkeeper;
pub mod awareness;
pub mod librarian;
pub mod error_hash;
pub mod hash_cache;
pub mod semantic;
pub mod record_id;
pub mod memory_sql;
pub mod scope_ledger;
pub mod debug_session;
pub mod lens;
pub mod catalog;
pub mod awareness_sync;
pub mod card;
