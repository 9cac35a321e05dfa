use mercury::db::models::{FeedWithCounts, SyncResult};
use mercury::feed::opml_export::{build_opml, escape_xml, opml_export_feeds, push_outline, OpmlFeedData, OpmlFolderData};
use mercury::feed::opml_import::{
    import_result, opml_feeds, parse_opml_text, FeedImportOutcome, OpmlOutline, OutlineList,
};
use mercury::feed::parser::{parse_feed_bytes, parsed_feed, FeedDocument, FeedItem, FeedLink};
use mercury::feed::sync_service::{empty_body_result, sync_outcome, synced};

fn feed(title: &str, url: &str, site: Option<&str>) -> OpmlFeedData {
    OpmlFeedData { title: title.into(), feed_url: url.into(), site_url: site.map(|s| s.to_string()) }
}

fn outline(text: &str, xml: Option<&str>, inner: OutlineList) -> OpmlOutline {
    OpmlOutline { text: text.into(), xml_url: xml.map(|s| s.to_string()), html_url: None, outlines: inner }
}

fn list(items: Vec<OpmlOutline>) -> OutlineList {
    let mut l = OutlineList::Nil;
    for o in items.into_iter().rev() {
        l = OutlineList::Cons(Box::new(o), Box::new(l));
    }
    l
}

#[test]
fn xml_text_is_escaped() {
    assert_eq!(escape_xml("a<b>&\"c\""), "a&lt;b&gt;&amp;&quot;c&quot;");
    assert_eq!(escape_xml("it's"), "it's");
}

#[test]
fn outline_of_a_feed() {
    let mut buf = String::from("x");
    push_outline(&mut buf, "  ", &feed("A & B", "https://a/feed", None));
    assert_eq!(
        buf,
        "x  <outline text=\"A &amp; B\" title=\"A &amp; B\" type=\"rss\" xmlUrl=\"https://a/feed\" htmlUrl=\"\"/>\n"
    );
}

#[test]
fn opml_document_lists_feeds_then_folders() {
    let doc = build_opml(
        "2024-01-01T00:00:00Z",
        &[feed("One", "https://one/rss", Some("https://one"))],
        &[OpmlFolderData { name: "Tech".into(), feeds: vec![feed("Two", "https://two/rss", None)] }],
    );
    assert!(doc.starts_with("<?xml version=\"1.0\" encoding=\"UTF-8\"?>\n<opml version=\"2.0\">\n"));
    assert!(doc.contains("<dateCreated>2024-01-01T00:00:00Z</dateCreated>"));
    let one = doc.find("xmlUrl=\"https://one/rss\" htmlUrl=\"https://one\"").unwrap();
    let folder = doc.find("    <outline text=\"Tech\" title=\"Tech\">\n      <outline text=\"Two\"").unwrap();
    assert!(one < folder);
    assert!(doc.ends_with("    </outline>\n  </body>\n</opml>\n"));
}

#[test]
fn export_selects_listed_feeds() {
    let fw = |id: i64, title: Option<&str>| FeedWithCounts {
        id,
        title: title.map(|t| t.to_string()),
        feed_url: format!("https://f{}/rss", id),
        site_url: None,
        last_fetched_at: None,
        created_at: String::new(),
        unread_count: 0,
        total_count: 0,
    };
    let feeds = vec![fw(1, Some("One")), fw(2, None), fw(3, Some("Three"))];
    let all = opml_export_feeds(&feeds, &None);
    assert_eq!(all.len(), 3);
    assert_eq!(all[1].title, "Untitled");
    let some = opml_export_feeds(&feeds, &Some(vec![3, 9]));
    assert_eq!(some.len(), 1);
    assert_eq!(some[0].feed_url, "https://f3/rss");
}

#[test]
fn opml_import_walks_outlines_depth_first() {
    let body = list(vec![
        outline("Folder", None, list(vec![outline("A", Some("https://a/rss"), OutlineList::Nil)])),
        outline("Empty url", Some(""), OutlineList::Nil),
        outline("B", Some("https://b/rss"), OutlineList::Nil),
    ]);
    let feeds = opml_feeds(&body);
    assert_eq!(feeds.len(), 2);
    assert_eq!(feeds[0].title, "A");
    assert_eq!(feeds[0].feed_url, "https://a/rss");
    assert_eq!(feeds[1].feed_url, "https://b/rss");
}

#[test]
fn import_summary_counts_and_reports() {
    let r = import_result(&vec![
        ("https://a".to_string(), FeedImportOutcome::Added(None)),
        ("https://b".to_string(), FeedImportOutcome::Skipped),
        ("https://c".to_string(), FeedImportOutcome::Added(Some("HTTP error: 404".into()))),
    ]);
    assert_eq!(r.feeds_added, 2);
    assert_eq!(r.feeds_skipped, 1);
    assert_eq!(r.errors, vec!["https://c: HTTP error: 404".to_string()]);
}

#[test]
fn parsed_feed_reads_site_and_entries() {
    let doc = FeedDocument {
        title: Some("Blog".into()),
        links: vec![
            FeedLink { rel: Some("self".into()), href: "https://b/feed".into() },
            FeedLink { rel: Some("alternate".into()), href: "https://b/".into() },
        ],
        entries: vec![FeedItem {
            id: "urn:1".into(),
            link_hrefs: vec!["https://b/1".into(), "https://b/1b".into()],
            title: Some("Post".into()),
            summary: None,
            published: None,
            updated: Some("2024-02-02T00:00:00+00:00".into()),
            author_names: vec![Some("Ann".into()), Some("Bob".into())],
        }],
    };
    let p = parsed_feed(&doc);
    assert_eq!(p.title.as_deref(), Some("Blog"));
    assert_eq!(p.site_url.as_deref(), Some("https://b/"));
    assert_eq!(p.entries.len(), 1);
    let e = &p.entries[0];
    assert_eq!(e.guid, "urn:1");
    assert_eq!(e.url.as_deref(), Some("https://b/1"));
    assert_eq!(e.author.as_deref(), Some("Ann"));
    assert_eq!(e.published_at.as_deref(), Some("2024-02-02T00:00:00+00:00"));
}

#[test]
fn sync_results() {
    let ok = synced(3, 2, 1);
    assert_eq!((ok.feed_id, ok.new_entries, ok.updated_entries, ok.error), (3, 2, 1, None));
    let empty = empty_body_result(4);
    assert_eq!(empty.error.as_deref(), Some("Empty response body"));
    let failed = sync_outcome(5, Err("HTTP error: x".into()));
    assert_eq!((failed.feed_id, failed.new_entries, failed.error.as_deref()), (5, 0, Some("HTTP error: x")));
    let passed: SyncResult = sync_outcome(6, Ok(synced(6, 1, 0)));
    assert_eq!(passed.new_entries, 1);
}

#[test]
fn opml_files_are_read() {
    let xml = r#"<?xml version="1.0"?>
<opml version="2.0"><head><title>x</title></head><body>
<outline text="Tech"><outline text="A" xmlUrl="https://a/rss" htmlUrl="https://a"/></outline>
<outline text="B" xmlUrl="https://b/rss"/>
</body></opml>"#;
    let feeds = parse_opml_text(xml).unwrap();
    assert_eq!(feeds.len(), 2);
    assert_eq!(feeds[0].title, "A");
    assert_eq!(feeds[0].site_url.as_deref(), Some("https://a"));
    assert_eq!(feeds[1].feed_url, "https://b/rss");
    assert!(parse_opml_text("not xml").unwrap_err().starts_with("OPML parse error: "));
}

#[test]
fn exported_opml_reads_back() {
    let doc = build_opml(
        "2024-01-01T00:00:00Z",
        &[feed("A & \"B\" <1>", "https://one/rss?a=1&b=2", Some("https://one"))],
        &[OpmlFolderData { name: "Tech".into(), feeds: vec![feed("Two", "https://two/rss", None)] }],
    );
    let feeds = parse_opml_text(&doc).unwrap();
    assert_eq!(feeds.len(), 2);
    assert_eq!(feeds[0].title, "A & \"B\" <1>");
    assert_eq!(feeds[0].feed_url, "https://one/rss?a=1&b=2");
    assert_eq!(feeds[0].site_url.as_deref(), Some("https://one"));
    assert_eq!(feeds[1].title, "Two");
    assert_eq!(feeds[1].feed_url, "https://two/rss");
    assert_eq!(feeds[1].site_url.as_deref(), Some(""));
}

#[test]
fn rss_bytes_are_parsed() {
    let rss = br#"<?xml version="1.0"?>
<rss version="2.0"><channel><title>Blog</title><link>https://b.example/</link>
<item><guid>urn:1</guid><title>Post</title><link>https://b.example/1</link>
<description>Short text</description><pubDate>Mon, 01 Jan 2024 10:00:00 GMT</pubDate></item>
</channel></rss>"#;
    let p = parse_feed_bytes(rss, None).unwrap();
    assert_eq!(p.title.as_deref(), Some("Blog"));
    assert_eq!(p.entries.len(), 1);
    let e = &p.entries[0];
    assert_eq!(e.guid, "urn:1");
    assert_eq!(e.title.as_deref(), Some("Post"));
    assert_eq!(e.url.as_deref(), Some("https://b.example/1"));
    assert_eq!(e.summary.as_deref(), Some("Short text"));
    assert_eq!(e.published_at.as_deref(), Some("2024-01-01T10:00:00+00:00"));
    assert!(parse_feed_bytes(b"not a feed", None).unwrap_err().starts_with("Feed parse error: "));
}

#[test]
fn atom_and_json_feeds_are_parsed() {
    let atom = br#"<?xml version="1.0" encoding="utf-8"?>
<feed xmlns="http://www.w3.org/2005/Atom"><title>Atom Log</title>
<link rel="alternate" href="https://a.example/"/><id>urn:feed</id><updated>2024-02-01T00:00:00Z</updated>
<entry><title>First</title><id>urn:e1</id><link href="https://a.example/1"/>
<updated>2024-02-02T08:30:00Z</updated><author><name>Ann</name></author><summary>Hi</summary></entry>
</feed>"#;
    let p = parse_feed_bytes(atom, Some("https://a.example/atom")).unwrap();
    assert_eq!(p.title.as_deref(), Some("Atom Log"));
    assert_eq!(p.site_url.as_deref(), Some("https://a.example/"));
    assert_eq!(p.entries.len(), 1);
    let e = &p.entries[0];
    assert_eq!(e.guid, "urn:e1");
    assert_eq!(e.url.as_deref(), Some("https://a.example/1"));
    assert_eq!(e.author.as_deref(), Some("Ann"));
    assert_eq!(e.published_at.as_deref(), Some("2024-02-02T08:30:00+00:00"));
    assert_eq!(e.summary.as_deref(), Some("Hi"));

    let json = br#"{"version": "https://jsonfeed.org/version/1.1", "title": "Json Log",
        "items": [{"id": "j1", "url": "https://j.example/1", "title": "One"}]}"#;
    let q = parse_feed_bytes(json, None).unwrap();
    assert_eq!(q.title.as_deref(), Some("Json Log"));
    assert_eq!(q.entries.len(), 1);
    assert_eq!(q.entries[0].guid, "j1");
    assert_eq!(q.entries[0].url.as_deref(), Some("https://j.example/1"));
    assert_eq!(q.entries[0].title.as_deref(), Some("One"));
    assert!(q.entries[0].published_at.is_none());
}
