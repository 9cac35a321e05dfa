//! AI agent logic: the task-slot runtime, prompt templates and response parsing.
pub mod runtime;
pub mod prompt_templates;
pub mod provider;
pub mod tagging;
pub mod credential_store;
pub mod translation;
pub mod summary;
