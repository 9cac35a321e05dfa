//! The decisions behind the user interface's commands.
pub mod reader_cmd;
pub mod agent_cmd;
