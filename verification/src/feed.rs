//! Feeds: OPML import and export, and the reading of parsed feed documents.
pub mod opml_export;
pub mod opml_import;
pub mod parser;
pub mod sync_service;
