//! The daemon: its observation types, in-memory store, and command helpers.
pub mod types;
pub mod summary;
pub mod store;
pub mod client;
pub mod init;
pub mod sqlite;
pub mod setup;
pub mod cleanup;
pub mod adb;
pub mod chrome;
pub mod relay;
