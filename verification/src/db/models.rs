//! Records of the reader's database: feeds, entries, content, tags, notes and agent settings.
use vstd::prelude::*;
use vstd::utf8::encode_utf8;

verus! {

// ── Feed ──

#[derive(Debug, Clone)]
pub struct Feed {
    pub id: i64,
    pub title: Option<String>,
    pub feed_url: String,
    pub site_url: Option<String>,
    pub feed_parser_version: Option<i32>,
    pub last_fetched_at: Option<String>,
    pub created_at: String,
}

#[derive(Debug, Clone)]
pub struct FeedWithCounts {
    pub id: i64,
    pub title: Option<String>,
    pub feed_url: String,
    pub site_url: Option<String>,
    pub last_fetched_at: Option<String>,
    pub created_at: String,
    pub unread_count: i64,
    pub total_count: i64,
}

// ── Entry ──

#[derive(Debug, Clone)]
pub struct Entry {
    pub id: i64,
    pub feed_id: i64,
    pub guid: Option<String>,
    pub url: Option<String>,
    pub title: Option<String>,
    pub author: Option<String>,
    pub published_at: Option<String>,
    pub summary: Option<String>,
    pub is_read: bool,
    pub is_starred: bool,
    pub is_deleted: bool,
    pub created_at: String,
}

#[derive(Debug, Clone)]
pub struct EntryPage {
    pub entries: Vec<Entry>,
    pub next_cursor: Option<String>,
    pub total: i64,
}

#[derive(Debug, Clone)]
pub struct EntryDetail {
    pub entry: Entry,
    pub feed_title: Option<String>,
    pub tags: Vec<EntryTagInfo>,
    pub has_note: bool,
}

#[derive(Debug, Clone)]
pub struct EntryTagInfo {
    pub tag_id: i64,
    pub name: String,
    pub source: String,
}

// ── Content ──

#[derive(Debug, Clone)]
pub struct Content {
    pub entry_id: i64,
    pub html: Option<String>,
    pub cleaned_html: Option<String>,
    pub readability_title: Option<String>,
    pub readability_byline: Option<String>,
    pub readability_version: Option<i32>,
    pub markdown: Option<String>,
    pub markdown_version: Option<i32>,
    pub display_mode: String,
    pub document_base_url: Option<String>,
    pub pipeline_type: String,
    pub resolved_intermediate_content: Option<String>,
}

#[derive(Debug, Clone)]
pub struct CachedReaderHtml {
    pub theme_id: String,
    pub entry_id: i64,
    pub html: String,
    pub reader_render_version: Option<i32>,
    pub updated_at: String,
}

// ── Tag ──

#[derive(Debug, Clone)]
pub struct Tag {
    pub id: i64,
    pub name: String,
    pub normalized_name: String,
    pub is_provisional: bool,
    pub usage_count: i64,
}

#[derive(Debug, Clone)]
pub struct TagAlias {
    pub id: i64,
    pub tag_id: i64,
    pub alias_normalized: String,
}

// ── Entry Note ──

#[derive(Debug, Clone)]
pub struct EntryNote {
    pub entry_id: i64,
    pub markdown: String,
    pub updated_at: String,
}

// ── Agent Provider ──

#[derive(Debug, Clone)]
pub struct AgentProviderProfile {
    pub id: String,
    pub name: String,
    pub base_url: String,
    pub display_name: Option<String>,
    pub is_default: bool,
    pub is_enabled: bool,
    pub is_archived: bool,
    pub created_at: String,
}

// ── Agent Profile ──

#[derive(Debug, Clone)]
pub struct AgentProfile {
    pub agent_type: String,
    pub primary_model_id: Option<String>,
    pub fallback_model_id: Option<String>,
    pub target_language: Option<String>,
    pub detail_level: Option<String>,
    pub prompt_strategy: Option<String>,
    pub concurrency_degree: Option<i32>,
}

// ── Agent Task Run ──

#[derive(Debug, Clone)]
pub struct AgentTaskRun {
    pub id: i64,
    pub entry_id: i64,
    pub task_type: String,
    pub status: String,
    pub agent_profile_id: Option<String>,
    pub provider_profile_id: Option<String>,
    pub model_profile_id: Option<String>,
    pub target_language: Option<String>,
    pub duration_ms: Option<i64>,
    pub created_at: String,
}

// ── LLM Usage Event ──

#[derive(Debug, Clone)]
pub struct LlmUsageEvent {
    pub id: i64,
    pub task_run_id: Option<i64>,
    pub provider_name: Option<String>,
    pub model_name: Option<String>,
    pub agent_type: Option<String>,
    pub prompt_tokens: Option<i64>,
    pub completion_tokens: Option<i64>,
    pub total_tokens: Option<i64>,
    pub request_status: Option<String>,
    pub created_at: String,
}

// ── Translation ──

#[derive(Debug, Clone)]
pub struct TranslationResult {
    pub entry_id: i64,
    pub target_language: String,
    pub source_content_hash: String,
    pub segmenter_version: String,
    pub run_status: String,
}

#[derive(Debug, Clone)]
pub struct TranslationSegment {
    pub id: i64,
    pub entry_id: i64,
    pub target_language: String,
    pub source_segment_id: String,
    pub order_index: i64,
    pub source_text_snapshot: String,
    pub translated_text: Option<String>,
}

// ── Summary ──

#[derive(Debug, Clone)]
pub struct SummaryResult {
    pub entry_id: i64,
    pub target_language: String,
    pub detail_level: String,
    pub text: String,
    pub output_language: Option<String>,
    pub created_at: String,
}

// ── Content extraction result ──

#[derive(Debug, Clone)]
pub struct DecruftOutput {
    pub content: String,
    pub title: Option<String>,
    pub byline: Option<String>,
    pub site_name: Option<String>,
    pub language: Option<String>,
}

/// Extracted text needs the fallback page when it is empty, shorter than 200 bytes
/// of UTF-8, or has no (or an empty) title.
pub open spec fn needs_fallback_spec(content: Seq<char>, title: Option<Seq<char>>) -> bool {
    ||| content.len() == 0
    ||| encode_utf8(content).len() < 200
    ||| match title {
        Some(t) => t.len() == 0,
        None => true,
    }
}

impl DecruftOutput {
    /// Check if the extraction result needs a fallback page.
    pub fn needs_fallback(&self) -> (r: bool)
        ensures
            r == needs_fallback_spec(
                self.content@,
                match self.title { Some(t) => Some(t@), None => None },
            ),
    {
        let c = self.content.as_str();
        let n = c.as_bytes().len();
        assert(n == encode_utf8(self.content@).len());
        let untitled = match &self.title {
            Some(t) => t.as_str().is_empty(),
            None => true,
        };
        c.is_empty() || n < 200 || untitled
    }
}

// ── Sync result ──

#[derive(Debug, Clone)]
pub struct SyncResult {
    pub feed_id: i64,
    pub new_entries: usize,
    pub updated_entries: usize,
    pub error: Option<String>,
}

// ── Import/Export ──

#[derive(Debug, Clone)]
pub struct ImportResult {
    pub feeds_added: usize,
    pub feeds_skipped: usize,
    pub errors: Vec<String>,
}

#[derive(Debug, Clone)]
pub struct AgentStatus {
    pub agent_type: String,
    pub state: String,
    pub current_entry_id: Option<i64>,
    pub queue_depth: usize,
}

#[derive(Debug, Clone)]
pub struct BatchTagResult {
    pub entries_processed: usize,
    pub tags_assigned: usize,
}

#[derive(Debug, Clone)]
pub struct ProviderConfig {
    pub name: String,
    pub base_url: String,
    pub display_name: Option<String>,
    pub api_key: Option<String>,
}

#[derive(Debug, Clone)]
pub struct TimeRange {
    pub from: String,
    pub to: String,
}

} // verus!
