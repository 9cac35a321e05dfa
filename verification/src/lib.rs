//! Mercury: the verified core of a local-first RSS reader.
pub mod agent;
pub mod text;
pub mod db;
pub mod decimal;
pub mod reader;
pub mod commands;
pub mod feed;
pub mod digest;
