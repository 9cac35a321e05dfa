use mercury::agent::credential_store::{simple_decrypt, simple_encrypt};
use mercury::agent::provider::{
    api_error, bearer_header, chat_completion_url, classify_sse_line, connection_test_messages,
    connection_test_reply, stream_deltas, success_usage_event, ChatCompletionResponse, ChatMessage, Choice, SseLine,
    StreamChoice, StreamChunk, StreamDelta, UsageInfo,
};
use mercury::agent::summary::{language_name, summary_done_event, summary_error_event, summary_params};
use mercury::agent::tagging::{
    dedup_tags, parse_tag_response, strip_number_prefix, tags_from_json_readings, tagging_outcome, tagging_params, AttemptResult,
    RetryAction, TaggingRetry,
};
use mercury::agent::translation::{
    compute_source_content_hash, progress_event, segment_error_event, segment_event, translation_done_event,
    segment_params, translation_params, translation_segments, usage_totals,
};

#[test]
fn encrypts_to_hex_of_xored_bytes() {
    assert_eq!(simple_encrypt(""), "");
    // 'a' (0x61) XOR 'm' (0x6d) = 0x0c; 'b' (0x62) XOR 'e' (0x65) = 0x07
    assert_eq!(simple_encrypt("ab"), "0c07");
}

#[test]
fn decrypts_what_was_encrypted() {
    for key in ["sk-abc123", "", "päss wörd", "a-much-longer-api-key-than-the-forty-byte-obfuscation-key"] {
        assert_eq!(simple_decrypt(&simple_encrypt(key)), key);
    }
    assert_eq!(simple_decrypt("0C07"), "ab");
}

#[test]
fn non_hex_stored_key_reads_as_empty() {
    assert_eq!(simple_decrypt("xyz1"), "");
    assert_eq!(simple_decrypt("0c0"), "");
}

#[test]
fn segments_are_non_blank_paragraphs() {
    let segs = translation_segments("First para.\n\nSecond\nline.\n\n   \n\nThird").unwrap();
    assert_eq!(segs, vec!["First para.", "Second\nline.", "Third"]);
    let three = translation_segments("a\n\n\nb").unwrap();
    assert_eq!(three, vec!["a", "\nb"]);
}

#[test]
fn blank_article_has_nothing_to_translate() {
    assert_eq!(translation_segments(""), Err("No translatable content found".to_string()));
    assert_eq!(translation_segments(" \n\n\t\n\n"), Err("No translatable content found".to_string()));
    assert_eq!(translation_segments("\u{3000}\u{a0}\u{2009}\n\nHello"), Ok(vec!["Hello".to_string()]));
    assert_eq!(translation_segments("\u{200b}"), Ok(vec!["\u{200b}".to_string()]));
}

#[test]
fn content_hash_is_sha256_of_all_segments() {
    assert_eq!(
        compute_source_content_hash(&["abc"]),
        "ba7816bf8f01cfea414140de5dae2223b00361a396177a9cb410ff61f20015ad"
    );
    assert_eq!(compute_source_content_hash(&["a", "bc"]), compute_source_content_hash(&["abc"]));
    assert_eq!(
        compute_source_content_hash(&[]),
        "e3b0c44298fc1c149afbf4c8996fb92427ae41e4649b934ca495991b7852b855"
    );
}

#[test]
fn translation_messages() {
    assert_eq!(progress_event(0, 3), r#"{"type":"progress","segment":1,"total":3}"#);
    assert_eq!(segment_event(2, "Say \"hi\"\n"), r#"{"type":"segment","index":2,"text":"Say \"hi\"\n"}"#);
    assert_eq!(segment_event(0, "\u{1}"), "{\"type\":\"segment\",\"index\":0,\"text\":\"\\u0001\"}");
    assert_eq!(segment_error_event(4, "HTTP error"), r#"{"type":"error","segment":4,"error":"HTTP error"}"#);
    assert_eq!(translation_done_event(), r#"{"type":"done","result":"translation_complete"}"#);
}

#[test]
fn translation_prompt_parameters() {
    let p = translation_params("Chinese", "Hello world", None);
    assert_eq!(p.get("target_language").map(|s| s.as_str()), Some("Chinese"));
    assert_eq!(p.get("source_text").map(|s| s.as_str()), Some("Hello world"));
    assert!(p.get("previous").is_none());
    let q = translation_params("Chinese", "Second.", Some("First."));
    assert_eq!(q.get("previous").map(|s| s.as_str()), Some("First."));
}

#[test]
fn each_segment_gets_the_one_before_as_context() {
    let segments = vec!["First.".to_string(), "Second.".to_string(), "Third.".to_string()];
    let p = segment_params("German", &segments, 0);
    assert_eq!(p.get("source_text").map(|s| s.as_str()), Some("First."));
    assert_eq!(p.get("target_language").map(|s| s.as_str()), Some("German"));
    assert!(p.get("previous").is_none());
    let q = segment_params("German", &segments, 2);
    assert_eq!(q.get("source_text").map(|s| s.as_str()), Some("Third."));
    assert_eq!(q.get("previous").map(|s| s.as_str()), Some("Second."));
}

#[test]
fn usage_is_summed_over_reporting_segments() {
    let u = |p: u32, c: u32, t: u32| Some(UsageInfo { prompt_tokens: p, completion_tokens: c, total_tokens: t });
    assert_eq!(
        usage_totals(&vec![u(10, 5, 15), None, u(4000000000, 4000000000, 4000000000)]),
        (4000000010, 4000000005, 4000000015)
    );
    assert_eq!(usage_totals(&vec![]), (0, 0, 0));
}

#[test]
fn summary_language_names() {
    assert_eq!(language_name("zh-Hans"), "Simplified Chinese");
    assert_eq!(language_name("zh-Hant"), "Traditional Chinese");
    assert_eq!(language_name("ja"), "Japanese");
    assert_eq!(language_name("ko"), "Korean");
    assert_eq!(language_name("fr"), "French");
    assert_eq!(language_name("de"), "German");
    assert_eq!(language_name("es"), "Spanish");
    assert_eq!(language_name("pt-BR"), "pt-BR");
}

#[test]
fn summary_prompt_parameters() {
    let p = summary_params(Some("T".into()), None, "# md", "zh-Hans", "brief");
    assert_eq!(p.get("title").map(|s| s.as_str()), Some("T"));
    assert_eq!(p.get("byline").map(|s| s.as_str()), Some(""));
    assert_eq!(p.get("content").map(|s| s.as_str()), Some("# md"));
    assert_eq!(p.get("target_language").map(|s| s.as_str()), Some("Simplified Chinese"));
    assert_eq!(p.get("detail_level").map(|s| s.as_str()), Some("brief"));
    assert_eq!(summary_done_event(), r#"{"type":"done"}"#);
    assert_eq!(summary_error_event("boom"), r#"{"type":"error","message":"boom"}"#);
}

#[test]
fn tagging_prompt_parameters() {
    let p = tagging_params(None, Some("Ann".into()), "text", &vec!["rust".to_string(), "ai".to_string()]);
    assert_eq!(p.get("title").map(|s| s.as_str()), Some(""));
    assert_eq!(p.get("byline").map(|s| s.as_str()), Some("Ann"));
    assert_eq!(p.get("existing_tags").map(|s| s.as_str()), Some("rust\nai"));
}

#[test]
fn tag_replies_are_parsed() {
    assert_eq!(parse_tag_response(r#"["Rust", "AI"]"#), vec!["Rust", "AI"]);
    assert_eq!(parse_tag_response("```json\n[\"Web\", \"'CSS'\"]\n```"), vec!["Web", "CSS"]);
    assert_eq!(parse_tag_response(r#"Tags: ["one", "two"] done"#), vec!["one", "two"]);
    assert_eq!(parse_tag_response(r#"["one", "tw"#), vec!["one", "tw"]);
    assert_eq!(parse_tag_response("- Rust\n- 2. Go\n* ---"), vec!["Rust", "Go"]);
    assert_eq!(parse_tag_response("a, b, c, d, e, f, g, h, i, j").len(), 8);
    assert!(parse_tag_response("   ").is_empty());
}

#[test]
fn first_json_reading_with_tags_wins() {
    let arr = |v: &[&str]| Some(v.iter().map(|s| s.to_string()).collect::<Vec<String>>());
    assert_eq!(tags_from_json_readings(&arr(&["Rust", " 'AI' "]), &arr(&["x"]), &None, "z"), vec!["Rust", "AI"]);
    assert_eq!(tags_from_json_readings(&arr(&["", "  "]), &arr(&["Go"]), &arr(&["y"]), "z"), vec!["Go"]);
    assert_eq!(tags_from_json_readings(&None, &None, &arr(&["Web"]), "z"), vec!["Web"]);
    assert_eq!(tags_from_json_readings(&None, &arr(&[]), &None, "alpha, beta"), vec!["alpha", "beta"]);
    let nine = arr(&["a", "b", "c", "d", "e", "f", "g", "h", "i"]);
    assert_eq!(tags_from_json_readings(&nine, &None, &None, "").len(), 8);
}

#[test]
fn number_prefixes_are_stripped() {
    assert_eq!(strip_number_prefix("1. Rust"), "Rust");
    assert_eq!(strip_number_prefix("12) Go"), "Go");
    assert_eq!(strip_number_prefix("3D printing"), "3D printing");
    assert_eq!(strip_number_prefix("42"), "42");
}

#[test]
fn duplicate_tags_differ_only_in_case() {
    let tags = vec!["Rust".to_string(), "rust".to_string(), "Go".to_string(), "RUST".to_string()];
    assert_eq!(dedup_tags(tags), vec!["Rust", "Go"]);
}

#[test]
fn tagging_outcomes() {
    assert_eq!(tagging_outcome(r#"["a","A","b"]"#, None), Ok(vec!["a".to_string(), "b".to_string()]));
    assert_eq!(
        tagging_outcome("", Some("HTTP error: timeout".into())),
        Err("Tagging failed after 3 attempts: HTTP error: timeout".to_string())
    );
    assert_eq!(
        tagging_outcome("  ", None),
        Err("DeepSeek returned empty responses after 3 retries. Please try again.".to_string())
    );
    assert_eq!(
        tagging_outcome("```", None),
        Err("Failed to parse tags from LLM response. Raw output:\n```".to_string())
    );
}

#[test]
fn tagging_retries_until_a_reply() {
    let mut run = TaggingRetry::new();
    assert_eq!(run.record(AttemptResult::Failed("HTTP error".into())), RetryAction::RetryAfterPause);
    assert_eq!(
        run.record(AttemptResult::Reply { content: "  ".into(), usage: None }),
        RetryAction::RetryAfterPause
    );
    assert_eq!(run.last_error.as_deref(), Some("Empty response from LLM"));
    let usage = UsageInfo { prompt_tokens: 1, completion_tokens: 2, total_tokens: 3 };
    assert_eq!(
        run.record(AttemptResult::Reply { content: "[\"x\"]".into(), usage: Some(usage) }),
        RetryAction::Stop
    );
    assert_eq!(run.attempts, 3);
    assert_eq!(run.raw, "[\"x\"]");
    assert!(run.last_error.is_none());
    assert_eq!(run.last_usage.map(|u| u.total_tokens), Some(3));
}

#[test]
fn tagging_gives_up_after_three_requests() {
    let mut run = TaggingRetry::new();
    run.record(AttemptResult::Failed("e1".into()));
    run.record(AttemptResult::Failed("e2".into()));
    assert_eq!(run.record(AttemptResult::Failed("e3".into())), RetryAction::Stop);
    assert!(run.finished);
    assert_eq!(run.raw, "");
    assert_eq!(run.last_error.as_deref(), Some("e3"));
}

#[test]
fn provider_requests() {
    assert_eq!(chat_completion_url("https://api.x.com/v1//"), "https://api.x.com/v1/chat/completions");
    assert_eq!(bearer_header("sk-1"), "Bearer sk-1");
    assert_eq!(api_error("bad key"), "API error: bad key");
    let m = connection_test_messages();
    assert_eq!(m.len(), 1);
    assert_eq!(m[0].role, "user");
    assert_eq!(m[0].content, "Hello, respond with just 'ok'.");
}

#[test]
fn connection_test_replies() {
    let empty = ChatCompletionResponse { choices: vec![], usage: None };
    assert_eq!(connection_test_reply(&empty), "No response");
    let one = ChatCompletionResponse {
        choices: vec![Choice {
            message: ChatMessage { role: "assistant".into(), content: "ok".into() },
            finish_reason: None,
        }],
        usage: None,
    };
    assert_eq!(connection_test_reply(&one), "ok");
}

#[test]
fn sse_lines() {
    assert_eq!(classify_sse_line(""), SseLine::Skip);
    assert_eq!(classify_sse_line(": keep-alive"), SseLine::Skip);
    assert_eq!(classify_sse_line("data: [DONE]"), SseLine::Done);
    assert_eq!(classify_sse_line("data: {\"a\":1}"), SseLine::Data("{\"a\":1}".to_string()));
}

#[test]
fn usage_events_of_successful_requests() {
    let e = success_usage_event("summary", "gpt-4o-mini", 1, 2, 3);
    assert_eq!(e.id, 0);
    assert_eq!(e.provider_name.as_deref(), Some("default"));
    assert_eq!(e.model_name.as_deref(), Some("gpt-4o-mini"));
    assert_eq!(e.agent_type.as_deref(), Some("summary"));
    assert_eq!((e.prompt_tokens, e.completion_tokens, e.total_tokens), (Some(1), Some(2), Some(3)));
    assert_eq!(e.request_status.as_deref(), Some("success"));
    assert_eq!(e.created_at, "");
}

#[test]
fn stream_chunks_give_their_content_deltas() {
    let choice = |c: Option<Option<&str>>| StreamChoice {
        delta: c.map(|t| StreamDelta { content: t.map(|x| x.to_string()) }),
    };
    let chunk = StreamChunk {
        choices: Some(vec![choice(Some(Some("Hel"))), choice(None), choice(Some(None)), choice(Some(Some("lo")))]),
    };
    assert_eq!(stream_deltas(&chunk), vec!["Hel".to_string(), "lo".to_string()]);
    assert!(stream_deltas(&StreamChunk { choices: None }).is_empty());
    assert!(stream_deltas(&StreamChunk { choices: Some(vec![]) }).is_empty());
}
