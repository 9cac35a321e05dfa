//! The data model of the reader's store and the query logic built on it.
pub mod models;
pub mod entry_store;
pub mod tag_store;
pub mod usage_store;
pub mod migrations;
pub mod connection;
