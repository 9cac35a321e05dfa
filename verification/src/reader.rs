//! The reader pipeline: extraction, Markdown conversion, rendering and themes.
pub mod theme;
pub mod md_to_html;
pub mod html_to_md;
pub mod extraction;
pub mod pipeline;
