use mercury::db::connection::busy_retry_delay_ms;
use mercury::db::entry_store::{
    build_entry_query, entry_lookup, entry_query_params, mark_read_statement, next_cursor, upsert_counts,
    EntryLookup, EntryQueryParams, RawEntryData, SqlValue,
};
use mercury::db::migrations::{needs_initial_schema, schema_version_text, stored_schema_version, SCHEMA_VERSION};
use mercury::db::models::Entry;
use mercury::db::tag_store::{batch_tag_links, batch_tag_result, tag_names, tag_search_pattern};
use mercury::db::usage_store::{usage_window_days, usage_window_modifier};
use mercury::decimal::{format_i64, parse_i64};

fn entry(id: i64) -> Entry {
    Entry {
        id,
        feed_id: 1,
        guid: None,
        url: None,
        title: None,
        author: None,
        published_at: None,
        summary: None,
        is_read: false,
        is_starred: false,
        is_deleted: false,
        created_at: String::new(),
    }
}

#[test]
fn plain_listing_query() {
    let q = build_entry_query(&EntryQueryParams {
        feed_id: None,
        unread_only: false,
        search: None,
        tag_ids: None,
        cursor: None,
        limit: 50,
    });
    assert_eq!(q.count_sql, "SELECT COUNT(*) FROM entry e WHERE e.is_deleted = 0");
    assert!(q.query_sql.ends_with("LIMIT ?1"));
    assert!(q.count_binds.is_empty());
    assert_eq!(q.query_binds, vec![SqlValue::Int(50)]);
}

#[test]
fn filtered_listing_query_numbers_its_parameters() {
    let q = build_entry_query(&EntryQueryParams {
        feed_id: Some(7),
        unread_only: true,
        search: Some("rust".into()),
        tag_ids: Some(vec![3, 4]),
        cursor: Some(100),
        limit: 20,
    });
    assert_eq!(
        q.count_sql,
        "SELECT COUNT(*) FROM entry e WHERE e.is_deleted = 0 AND e.feed_id = ?1 AND e.is_read = 0 \
         AND (e.title LIKE ?2 OR e.summary LIKE ?3) \
         AND e.id IN (SELECT entry_id FROM entry_tag WHERE tag_id IN (?4,?5)) AND e.id < ?6"
    );
    assert!(q.query_sql.contains("ORDER BY e.published_at DESC, e.id DESC"));
    assert!(q.query_sql.ends_with("LIMIT ?7"));
    assert_eq!(
        q.count_binds,
        vec![
            SqlValue::Int(7),
            SqlValue::Text("%rust%".into()),
            SqlValue::Text("%rust%".into()),
            SqlValue::Int(3),
            SqlValue::Int(4),
            SqlValue::Int(100)
        ]
    );
    assert_eq!(q.query_binds.len(), 7);
    assert_eq!(q.query_binds[6], SqlValue::Int(20));
}

#[test]
fn empty_tag_filter_is_no_filter() {
    let q = build_entry_query(&EntryQueryParams {
        feed_id: None,
        unread_only: false,
        search: None,
        tag_ids: Some(vec![]),
        cursor: None,
        limit: 10,
    });
    assert_eq!(q.count_sql, "SELECT COUNT(*) FROM entry e WHERE e.is_deleted = 0");
}

#[test]
fn listing_defaults_and_cursor() {
    let p = entry_query_params(None, None, None, None, Some("123".into()), None);
    assert!(!p.unread_only);
    assert_eq!(p.limit, 50);
    assert_eq!(p.cursor, Some(123));
    let bad = entry_query_params(Some(1), Some(true), None, None, Some("12x".into()), Some(5));
    assert_eq!(bad.cursor, None);
    assert!(bad.unread_only);
    assert_eq!(bad.limit, 5);
    assert_eq!(next_cursor(&vec![entry(9), entry(4)]), Some("4".to_string()));
    assert_eq!(next_cursor(&vec![]), None);
}

#[test]
fn mark_read_statement_binds_ids_then_flag() {
    let (sql, binds) = mark_read_statement(&vec![5, 6, 7], true);
    assert_eq!(sql, "UPDATE entry SET is_read = ?4 WHERE id IN (?1,?2,?3)");
    assert_eq!(binds, vec![SqlValue::Int(5), SqlValue::Int(6), SqlValue::Int(7), SqlValue::Int(1)]);
    let (_, unread) = mark_read_statement(&vec![5], false);
    assert_eq!(unread[1], SqlValue::Int(0));
}

#[test]
fn incoming_entries_are_matched_by_guid_then_url() {
    let raw = |guid: &str, url: Option<&str>| RawEntryData {
        guid: guid.into(),
        url: url.map(|u| u.to_string()),
        title: None,
        author: None,
        published_at: None,
        summary: None,
    };
    assert_eq!(entry_lookup(&raw("g1", Some("u"))), EntryLookup::Guid("g1".into()));
    assert_eq!(entry_lookup(&raw("", Some("u"))), EntryLookup::Url("u".into()));
    assert_eq!(entry_lookup(&raw("", None)), EntryLookup::New);
}

#[test]
fn upserts_count_new_and_updated() {
    assert_eq!(upsert_counts(&vec![None, Some(3), None, Some(8), Some(9)]), (2, 3));
    assert_eq!(upsert_counts(&vec![]), (0, 0));
}

#[test]
fn tag_names_are_trimmed_and_lowercased() {
    assert_eq!(tag_names("  Rust Lang \n"), ("Rust Lang".to_string(), "rust lang".to_string()));
    assert_eq!(tag_names("ÄRGER"), ("ÄRGER".to_string(), "ärger".to_string()));
    assert_eq!(tag_search_pattern(Some("ru")), Some("%ru%".to_string()));
    assert_eq!(tag_search_pattern(None), None);
}

#[test]
fn batch_tagging_links_every_tag_to_every_entry() {
    assert_eq!(batch_tag_links(&vec![1, 2], &vec![10, 20]), vec![(1, 10), (1, 20), (2, 10), (2, 20)]);
    assert!(batch_tag_links(&vec![1, 2], &vec![]).is_empty());
    let r = batch_tag_result(2, &vec![10, 20, 30]);
    assert_eq!((r.entries_processed, r.tags_assigned), (2, 3));
}

#[test]
fn usage_windows() {
    assert_eq!(usage_window_days("7d"), 7);
    assert_eq!(usage_window_days("90d"), 90);
    assert_eq!(usage_window_days("1y"), 30);
    assert_eq!(usage_window_modifier("7d"), "-7 days");
    assert_eq!(usage_window_modifier(""), "-30 days");
}

#[test]
fn schema_versions() {
    assert_eq!(stored_schema_version(None), 0);
    assert_eq!(stored_schema_version(Some("1")), 1);
    assert_eq!(stored_schema_version(Some("v1")), 0);
    assert_eq!(stored_schema_version(Some("99999999999")), 0);
    assert!(needs_initial_schema(0));
    assert!(!needs_initial_schema(1));
    assert_eq!(schema_version_text(), "1");
    assert_eq!(stored_schema_version(Some(&schema_version_text())), SCHEMA_VERSION);
}

#[test]
fn busy_retries_back_off() {
    assert_eq!(busy_retry_delay_ms(0), 300);
    assert_eq!(busy_retry_delay_ms(4), 1500);
}

#[test]
fn decimal_round_trip() {
    assert_eq!(format_i64(-42), "-42");
    assert_eq!(format_i64(i64::MIN), "-9223372036854775808");
    assert_eq!(parse_i64("+17"), Some(17));
    assert_eq!(parse_i64("-"), None);
    assert_eq!(parse_i64("9223372036854775808"), None);
    assert_eq!(parse_i64(&format_i64(i64::MAX)), Some(i64::MAX));
}
