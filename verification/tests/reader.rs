use mercury::commands::reader_cmd::{get_reader_themes, theme_or_default};
use mercury::db::models::DecruftOutput;
use mercury::reader::extraction::extract_content;
use mercury::reader::html_to_md::convert_html_to_markdown;
use mercury::reader::md_to_html::{markdown_to_html, render_markdown};
use mercury::reader::pipeline::{
    accept_article_body, choose_source_html, fallback_body, is_rss_metadata, strip_html_tags,
};
use mercury::reader::theme::{theme_id, wrap_with_theme};

#[test]
fn test_basic_paragraph() {
    let md = "Hello world";
    let html = markdown_to_html(md);
    assert!(html.contains("<p>Hello world</p>"));
}

#[test]
fn test_bold() {
    let md = "**bold text**";
    let html = markdown_to_html(md);
    assert!(html.contains("<strong>bold text</strong>"));
}

#[test]
fn test_strikethrough() {
    let md = "~~deleted~~";
    let html = markdown_to_html(md);
    assert!(html.contains("<del>deleted</del>"));
}

#[test]
fn test_gfm_table() {
    let md = "| A | B |\n|---|---|\n| 1 | 2 |\n";
    let html = markdown_to_html(md);
    assert!(html.contains("<table>"));
    assert!(html.contains("<th>A</th>") || html.contains(">A<"));
}

#[test]
fn test_code_block() {
    let md = "```rust\nfn main() {}\n```";
    let html = markdown_to_html(md);
    assert!(html.contains("<code") || html.contains("<pre"));
}

#[test]
fn test_link() {
    let md = "[example](https://example.com)";
    let html = markdown_to_html(md);
    assert!(html.contains("example.com"));
}

#[test]
fn test_render_with_theme() {
    let md = "# Title\n\nContent here.";
    let html = render_markdown(md, "classic-light");
    assert!(html.contains("<article class=\"reader\""));
    assert!(html.contains("<h1>Title</h1>"));
}

#[test]
fn test_paragraph_to_markdown() {
    let html = "<p>Hello world</p>";
    let md = convert_html_to_markdown(html).unwrap();
    assert!(md.contains("Hello world"));
}

#[test]
fn test_bold_and_italic() {
    let html = "<p><strong>Bold</strong> and <em>italic</em></p>";
    let md = convert_html_to_markdown(html).unwrap();
    assert!(md.contains("**Bold**"));
    assert!(md.contains("italic"));
}

#[test]
fn test_links() {
    let html = r#"<a href="https://example.com">Example</a>"#;
    let md = convert_html_to_markdown(html).unwrap();
    assert!(md.contains("Example"));
    assert!(md.contains("example.com"));
}

#[test]
fn test_heading() {
    let html = "<h2>Section Title</h2>";
    let md = convert_html_to_markdown(html).unwrap();
    assert!(md.contains("## Section Title") || md.contains("Section Title"));
}

#[test]
fn test_table() {
    let html = "<table><tr><th>A</th><th>B</th></tr><tr><td>1</td><td>2</td></tr></table>";
    let md = convert_html_to_markdown(html).unwrap();
    assert!(!md.is_empty());
}

#[test]
fn test_extract_basic_html() {
    let html = r#"<!DOCTYPE html>
<html>
<head><title>Test Article</title></head>
<body>
<article>
<h1>Test Article Title</h1>
<p>This is a test paragraph with enough content to pass the minimum length check.
It needs to be long enough. The quick brown fox jumps over the lazy dog.
Let me add more text to ensure we have enough. More content here to be safe.</p>
</article>
</body>
</html>"#;

    let result = extract_content(html, None);
    assert!(result.is_ok());
}

#[test]
fn test_needs_fallback_logic() {
    let empty = DecruftOutput {
        content: String::new(),
        title: None,
        byline: None,
        site_name: None,
        language: None,
    };
    assert!(empty.needs_fallback());

    let short = DecruftOutput {
        content: "hi".into(),
        title: Some("Ok".into()),
        byline: None,
        site_name: None,
        language: None,
    };
    assert!(short.needs_fallback());

    let missing_title = DecruftOutput {
        content: "x".repeat(500),
        title: None,
        byline: None,
        site_name: None,
        language: None,
    };
    assert!(missing_title.needs_fallback());

    let good = DecruftOutput {
        content: "x".repeat(500),
        title: Some("Good Title".into()),
        byline: None,
        site_name: None,
        language: None,
    };
    assert!(!good.needs_fallback());
}

#[test]
fn markdown_heading_has_no_id() {
    assert_eq!(markdown_to_html("# Title"), "<h1>Title</h1>\n");
}

#[test]
fn html_conversion_changes_markup() {
    let md = convert_html_to_markdown("<p><strong>x</strong></p>").unwrap();
    assert_eq!(md, "**x**");
}

#[test]
fn extraction_keeps_the_page_title() {
    let html = "<html><head><title>Hello</title></head><body><article><p>Some words here.</p></article></body></html>";
    let out = extract_content(html, None).unwrap();
    assert!(out.title.is_some());
}

#[test]
fn strips_tags_and_keeps_text() {
    assert_eq!(strip_html_tags("<p>a <b>b</b></p>c"), "a bc");
    assert_eq!(strip_html_tags("no tags"), "no tags");
    assert_eq!(strip_html_tags("<unclosed"), "");
}

#[test]
fn fallback_page_escapes_and_links() {
    let body = fallback_body("A & B", "", "", "https://x.org/?a=1&b=2", "<p>short</p>");
    assert!(body.starts_with("<h1>A &amp; B</h1>\n<hr>\n"));
    assert!(!body.contains("<blockquote>"));
    assert!(body.ends_with("<p><a href=\"https://x.org/?a=1&amp;b=2\">Open original article in browser</a></p>\n"));
}

#[test]
fn fallback_page_quotes_long_source_text() {
    let body = fallback_body("T", "Ann", "2024-01-01", "", "<div>line one is long enough\nline <i>two</i></div>");
    assert!(body.contains("<p><em>Ann</em></p>\n<p>2024-01-01</p>\n"));
    assert!(body.contains("<hr>\n<blockquote>\nline one is long enough<br>\nline two\n</blockquote>\n"));
    assert!(!body.contains("Open original article"));
}

#[test]
fn short_or_feed_sources_are_metadata() {
    assert!(is_rss_metadata("<p>short</p>"));
    let long = format!("{}Article URL: x", "y".repeat(600));
    assert!(is_rss_metadata(&long));
    assert!(!is_rss_metadata(&"z".repeat(600)));
}

#[test]
fn challenge_pages_are_dropped() {
    assert_eq!(accept_article_body(true, "<p>ok</p>".to_string()), "<p>ok</p>");
    assert_eq!(accept_article_body(false, "<p>ok</p>".to_string()), "");
    assert_eq!(accept_article_body(true, "window._cf_chl_opt = {}".to_string()), "");
    assert_eq!(accept_article_body(true, "/cdn-cgi/challenge-platform/x".to_string()), "");
}

#[test]
fn source_falls_back_to_summary() {
    assert_eq!(choose_source_html(Some("page".into()), Some("sum".into())), Ok("page".to_string()));
    assert_eq!(choose_source_html(None, Some("sum".into())), Ok("sum".to_string()));
    assert_eq!(choose_source_html(Some(String::new()), Some("sum".into())), Ok("sum".to_string()));
    assert_eq!(
        choose_source_html(Some(String::new()), Some(String::new())),
        Err("No content available for this entry".to_string())
    );
    assert_eq!(choose_source_html(None, None), Err("No content available for this entry".to_string()));
}

#[test]
fn themes_wrap_the_body() {
    let page = wrap_with_theme("<p>x</p>", "paper-dark");
    assert!(page.contains("<article class=\"reader\">"));
    assert!(page.contains("<p>x</p>"));
    assert!(page.contains("#1a1a2e"));
    assert!(page.contains("Georgia") || page.contains("serif"));
    let odd = wrap_with_theme("<p>x</p>", "nonsense");
    assert!(odd.contains("#ffffff"));
    assert_eq!(theme_id("paper", "dark"), "paper-dark");
    let same = wrap_with_theme("<p>x</p>", &theme_id("paper", "dark"));
    assert_eq!(same, page);
}

#[test]
fn reader_theme_list_and_default() {
    let themes = get_reader_themes().unwrap();
    assert_eq!(themes.len(), 4);
    assert_eq!(themes[0].id, "classic-light");
    assert_eq!(themes[3].label, "Paper Dark");
    assert_eq!(theme_or_default(None), "classic-light");
    assert_eq!(theme_or_default(Some("paper-light".into())), "paper-light");
}

#[test]
fn entries_with_different_titles_get_different_fallback_pages() {
    let a = fallback_body("a", "", "", "", "");
    let b = fallback_body("a<", "", "", "", "");
    let c = fallback_body("a&lt;", "", "", "", "");
    assert_ne!(a, b);
    assert_ne!(b, c);
    assert!(b.starts_with("<h1>a&lt;</h1>\n"));
    assert!(c.starts_with("<h1>a&amp;lt;</h1>\n"));
}
