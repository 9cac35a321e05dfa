use mercury::digest::{digest_json, render_digest, DigestEntryData, DigestTemplateData};

// The built-in `.hbs` files are resources read by the application; these tests render
// template texts of the same shape.
const SINGLE_MARKDOWN: &str = "# {{title}}\n\n{{#if byline}}*{{byline}}*\n\n{{/if}}{{content}}\n";
const MULTIPLE_MARKDOWN: &str =
    "# {{digest_title}}\n\n{{#each entries}}## {{title}}\n\n{{content}}\n\n---\n\n{{/each}}";

#[test]
fn test_single_markdown_template() {
    let result = render_digest(
        SINGLE_MARKDOWN,
        &DigestTemplateData {
            digest_title: None,
            generated_at: "2026-01-01".into(),
            entry_count: 1,
            title: Some("Test Article".into()),
            byline: Some("Author".into()),
            content: Some("Article content here.".into()),
            url: None,
            published_at: None,
            entries: None,
        },
    )
    .unwrap();
    assert!(result.contains("Test Article"));
    assert!(result.contains("Article content here."));
}

#[test]
fn test_multiple_markdown_template() {
    let entries = vec![
        DigestEntryData {
            title: "First".into(),
            byline: None,
            content: "Content 1".into(),
            published_at: None,
            url: None,
        },
        DigestEntryData {
            title: "Second".into(),
            byline: None,
            content: "Content 2".into(),
            published_at: None,
            url: None,
        },
    ];
    let result = render_digest(
        MULTIPLE_MARKDOWN,
        &DigestTemplateData {
            digest_title: Some("My Digest".into()),
            generated_at: "2026-01-01".into(),
            entry_count: 2,
            title: None,
            byline: None,
            content: None,
            url: None,
            published_at: None,
            entries: Some(entries),
        },
    )
    .unwrap();
    assert!(result.contains("My Digest"));
    assert!(result.contains("First"));
    assert!(result.contains("Second"));
}

fn single(title: &str, content: &str) -> DigestTemplateData {
    DigestTemplateData {
        digest_title: Some(format!("Digest: {}", title)),
        generated_at: "2026-01-01 10:00".into(),
        entry_count: 1,
        title: Some(title.into()),
        byline: None,
        content: Some(content.into()),
        url: None,
        published_at: None,
        entries: None,
    }
}

#[test]
fn digest_data_as_json() {
    assert_eq!(
        digest_json(&single("A \"q\"", "x\ny")),
        r#"{"digest_title":"Digest: A \"q\"","generated_at":"2026-01-01 10:00","entry_count":1,"title":"A \"q\"","content":"x\ny"}"#
    );
    let mut multi = single("T", "c");
    multi.title = None;
    multi.content = None;
    multi.digest_title = None;
    multi.entries = Some(vec![DigestEntryData {
        title: "E".into(),
        byline: Some("B".into()),
        content: "C".into(),
        published_at: None,
        url: Some("u".into()),
    }]);
    assert_eq!(
        digest_json(&multi),
        r#"{"digest_title":null,"generated_at":"2026-01-01 10:00","entry_count":1,"entries":[{"title":"E","byline":"B","content":"C","published_at":null,"url":"u"}]}"#
    );
}

#[test]
fn digest_text_is_not_escaped_and_errors_are_told_apart() {
    let out = render_digest("{{title}}|{{content}}", &single("<b>&", "x")).unwrap();
    assert_eq!(out, "<b>&|x");
    assert!(render_digest("{{#if title}}unclosed", &single("t", "c")).unwrap_err().starts_with("Template register error: "));
}
