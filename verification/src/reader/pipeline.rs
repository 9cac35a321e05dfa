//! The decisions of the reader build pipeline: which layer to rebuild from, whether
//! extraction failed, the fallback page, and the content records that are stored.
use vstd::prelude::*;
use vstd::utf8::encode_utf8;
use crate::db::models::{Content, DecruftOutput, needs_fallback_spec};
use crate::reader::extraction::opt_view;
use crate::text::{
    byte_len, chars_of, contains_chars, contains_seq, push_char, string_of_chars, trim_chars, trim_spec,
};

verus! {

/// Version of the extraction stage.
pub const READABILITY_VERSION: i32 = 1;
/// Version of the Markdown stage.
pub const MARKDOWN_VERSION: i32 = 1;
/// Version of the rendered reader HTML.
pub const READER_RENDER_VERSION: i32 = 1;

/// The HTML text escape of one character.
pub open spec fn escape_char(c: char) -> Seq<char> {
    if c == '&' {
        "&amp;"@
    } else if c == '<' {
        "&lt;"@
    } else if c == '>' {
        "&gt;"@
    } else {
        seq![c]
    }
}

/// `s` with `&`, `<` and `>` escaped as HTML entities.
pub open spec fn escape_text(s: Seq<char>) -> Seq<char>
    decreases s.len(),
{
    if s.len() == 0 { Seq::empty() } else { escape_text(s.drop_last()) + escape_char(s.last()) }
}

/// `html_escape::encode_text`: escapes every `&`, `<` and `>` of `s` as `&amp;`, `&lt;`
/// and `&gt;`, and leaves every other character as it is.
#[verifier::external_body]
fn encode_text(s: &str) -> (r: String)
    ensures
        r@ == escape_text(s@),
{
    html_escape::encode_text(s).into_owned()
}

/// Reads escaped text back: each entity `&amp;`, `&lt;`, `&gt;` as its character, any
/// other character as itself.
pub open spec fn unescape_text(x: Seq<char>) -> Seq<char>
    decreases x.len(),
{
    if x.len() == 0 {
        Seq::empty()
    } else if x.len() >= 5 && x.take(5) =~= "&amp;"@ {
        seq!['&'] + unescape_text(x.skip(5))
    } else if x.len() >= 4 && x.take(4) =~= "&lt;"@ {
        seq!['<'] + unescape_text(x.skip(4))
    } else if x.len() >= 4 && x.take(4) =~= "&gt;"@ {
        seq!['>'] + unescape_text(x.skip(4))
    } else {
        seq![x[0]] + unescape_text(x.skip(1))
    }
}

proof fn lemma_escape_front(s: Seq<char>)
    requires
        s.len() > 0,
    ensures
        escape_text(s) == escape_char(s[0]) + escape_text(s.skip(1)),
    decreases s.len(),
{
    if s.len() == 1 {
        assert(s.drop_last() =~= Seq::<char>::empty());
        assert(s.skip(1) =~= Seq::<char>::empty());
        assert(escape_char(s[0]) + Seq::<char>::empty() =~= escape_char(s[0]));
    } else {
        lemma_escape_front(s.drop_last());
        assert(s.drop_last()[0] == s[0]);
        assert(s.drop_last().skip(1) =~= s.skip(1).drop_last());
        assert(s.skip(1).last() == s.last());
        assert(escape_char(s[0]) + escape_text(s.skip(1).drop_last()) + escape_char(s.last())
            =~= escape_char(s[0]) + (escape_text(s.skip(1).drop_last()) + escape_char(s.last())));
    }
}

/// Escaping loses nothing: unescaping gives the text back.
pub proof fn lemma_unescape_escape(s: Seq<char>)
    ensures
        unescape_text(escape_text(s)) == s,
    decreases s.len(),
{
    reveal_strlit("&amp;");
    reveal_strlit("&lt;");
    reveal_strlit("&gt;");
    if s.len() > 0 {
        lemma_escape_front(s);
        lemma_unescape_escape(s.skip(1));
        let e = escape_char(s[0]);
        let x = escape_text(s);
        let rest = escape_text(s.skip(1));
        assert(x == e + rest);
        if s[0] == '&' {
            assert(x.take(5) =~= "&amp;"@);
            assert(x.skip(5) =~= rest);
        } else if s[0] == '<' {
            assert(x.take(4) =~= "&lt;"@);
            assert(x.skip(4) =~= rest);
            assert(!(x.len() >= 5 && x.take(5) =~= "&amp;"@)) by {
                assert(x[1] == 'l');
            }
        } else if s[0] == '>' {
            assert(x.take(4) =~= "&gt;"@);
            assert(x.skip(4) =~= rest);
            assert(!(x.len() >= 5 && x.take(5) =~= "&amp;"@)) by {
                assert(x[1] == 'g');
            }
            assert(!(x.len() >= 4 && x.take(4) =~= "&lt;"@)) by {
                assert(x[1] == 'g');
            }
        } else {
            assert(x[0] == s[0]);
            assert(x.skip(1) =~= rest);
            if x.len() >= 5 && x.take(5) =~= "&amp;"@ {
                assert(x.take(5)[0] == x[0]);
            }
            if x.len() >= 4 && (x.take(4) =~= "&lt;"@ || x.take(4) =~= "&gt;"@) {
                assert(x.take(4)[0] == x[0]);
            }
        }
        assert(seq![s[0]] + s.skip(1) =~= s);
    } else {
        assert(escape_text(s) =~= Seq::<char>::empty());
    }
}

proof fn lemma_escape_has_no_lt(s: Seq<char>)
    ensures
        forall|i: int| 0 <= i < escape_text(s).len() ==> escape_text(s)[i] != '<',
    decreases s.len(),
{
    reveal_strlit("&amp;");
    reveal_strlit("&lt;");
    reveal_strlit("&gt;");
    if s.len() > 0 {
        lemma_escape_has_no_lt(s.drop_last());
        let a = escape_text(s.drop_last());
        let b = escape_char(s.last());
        assert forall|i: int| 0 <= i < escape_text(s).len() implies escape_text(s)[i] != '<' by {
            if i >= a.len() {
                assert(escape_text(s)[i] == b[i - a.len()]);
            }
        }
    }
}

/// The fallback pages of entries with different titles differ, whatever their other
/// fields: no two such entries show the same page.
pub proof fn lemma_fallback_pages_differ(
    title1: Seq<char>,
    title2: Seq<char>,
    author1: Seq<char>,
    author2: Seq<char>,
    published1: Seq<char>,
    published2: Seq<char>,
    url1: Seq<char>,
    url2: Seq<char>,
    source1: Seq<char>,
    source2: Seq<char>,
)
    requires
        title1 != title2,
    ensures
        fallback_body_spec(title1, author1, published1, url1, source1) != fallback_body_spec(
            title2,
            author2,
            published2,
            url2,
            source2,
        ),
{
    reveal_strlit("<h1>");
    reveal_strlit("</h1>\n");
    let e1 = escape_text(title1);
    let e2 = escape_text(title2);
    lemma_unescape_escape(title1);
    lemma_unescape_escape(title2);
    assert(e1 != e2);
    lemma_escape_has_no_lt(title1);
    lemma_escape_has_no_lt(title2);
    let p1 = fallback_body_spec(title1, author1, published1, url1, source1);
    let p2 = fallback_body_spec(title2, author2, published2, url2, source2);
    if p1 == p2 {
        let h = "<h1>"@;
        let c = "</h1>\n"@;
        assert(p1.subrange(4, 4 + e1.len() as int) =~= e1);
        assert(p2.subrange(4, 4 + e2.len() as int) =~= e2);
        if e1.len() < e2.len() {
            assert(p1[4 + e1.len() as int] == '<');
            assert(p2[4 + e1.len() as int] == e2[e1.len() as int]);
        } else if e2.len() < e1.len() {
            assert(p2[4 + e2.len() as int] == '<');
            assert(p1[4 + e2.len() as int] == e1[e2.len() as int]);
        } else {
            assert(e1 =~= e2);
        }
    }
}

/// The text of `s` outside tags, and whether `s` ends inside a tag. A tag runs from a
/// `<` to the next `>`.
pub open spec fn strip_tags_state(s: Seq<char>) -> (Seq<char>, bool)
    decreases s.len(),
{
    if s.len() == 0 {
        (Seq::empty(), false)
    } else {
        let (out, in_tag) = strip_tags_state(s.drop_last());
        let c = s.last();
        if c == '<' {
            (out, true)
        } else if c == '>' {
            (out, false)
        } else if !in_tag {
            (out.push(c), false)
        } else {
            (out, true)
        }
    }
}

/// The plain text of an HTML fragment: every character outside `<...>` tags.
pub open spec fn strip_html_tags_spec(s: Seq<char>) -> Seq<char> {
    strip_tags_state(s).0
}

/// Strips HTML tags, returning the text outside them.
pub fn strip_html_tags(html: &str) -> (r: String)
    ensures
        r@ == strip_html_tags_spec(html@),
{
    let c = chars_of(html);
    let mut result = String::new();
    let mut in_tag = false;
    let mut i: usize = 0;
    assert(c@.take(0) =~= Seq::<char>::empty());
    while i < c.len()
        invariant
            i <= c.len(),
            (result@, in_tag) == strip_tags_state(c@.take(i as int)),
        decreases c.len() - i,
    {
        assert(c@.take(i + 1).drop_last() =~= c@.take(i as int));
        assert(c@.take(i + 1).last() == c@[i as int]);
        let ch = c[i];
        if ch == '<' {
            in_tag = true;
        } else if ch == '>' {
            in_tag = false;
        } else if !in_tag {
            push_char(&mut result, ch);
        }
        i += 1;
    }
    assert(c@.take(c.len() as int) =~= html@);
    result
}

/// `s` with every newline preceded by `<br>`.
pub open spec fn break_lines(s: Seq<char>) -> Seq<char>
    decreases s.len(),
{
    if s.len() == 0 {
        Seq::empty()
    } else if s.last() == '\n' {
        break_lines(s.drop_last()) + "<br>\n"@
    } else {
        break_lines(s.drop_last()).push(s.last())
    }
}

fn break_lines_of(s: &str) -> (r: String)
    ensures
        r@ == break_lines(s@),
{
    let c = chars_of(s);
    let mut out = String::new();
    let mut i: usize = 0;
    assert(c@.take(0) =~= Seq::<char>::empty());
    while i < c.len()
        invariant
            i <= c.len(),
            out@ == break_lines(c@.take(i as int)),
        decreases c.len() - i,
    {
        assert(c@.take(i + 1).drop_last() =~= c@.take(i as int));
        assert(c@.take(i + 1).last() == c@[i as int]);
        if c[i] == '\n' {
            out.append("<br>\n");
        } else {
            push_char(&mut out, c[i]);
        }
        i += 1;
    }
    assert(c@.take(c.len() as int) =~= s@);
    out
}

/// The part of the fallback page after the title: the author and date, a notice, the
/// plain text of the source when it is longer than 20 bytes, and a link to the
/// original when the entry has a URL.
pub open spec fn fallback_details(
    author: Seq<char>,
    published: Seq<char>,
    url: Seq<char>,
    source_html: Seq<char>,
) -> Seq<char> {
    let text = trim_spec(strip_html_tags_spec(source_html));
    (if author.len() > 0 { "<p><em>"@ + escape_text(author) + "</em></p>\n"@ } else { Seq::empty() })
        + (if published.len() > 0 { "<p>"@ + escape_text(published) + "</p>\n"@ } else { Seq::empty() })
        + "<hr>\n"@
        + "<p><strong>Full article content is not available.</strong><br>\n"@
        + "The source website may require JavaScript or block automated access (Cloudflare challenge).</p>\n"@
        + (if encode_utf8(text).len() > 20 {
            "<hr>\n<blockquote>\n"@ + break_lines(escape_text(text)) + "\n</blockquote>\n"@
        } else {
            Seq::empty()
        })
        + (if url.len() > 0 {
            "<p><a href=\""@ + escape_text(url) + "\">Open original article in browser</a></p>\n"@
        } else {
            Seq::empty()
        })
}

/// The body of the page shown when no article text could be extracted: the entry's
/// title as a heading, then its details (see `fallback_details`).
pub open spec fn fallback_body_spec(
    title: Seq<char>,
    author: Seq<char>,
    published: Seq<char>,
    url: Seq<char>,
    source_html: Seq<char>,
) -> Seq<char> {
    "<h1>"@ + escape_text(title) + "</h1>\n"@ + fallback_details(author, published, url, source_html)
}

fn fallback_details_of(author: &str, published: &str, url: &str, source_html: &str) -> (r: String)
    ensures
        r@ == fallback_details(author@, published@, url@, source_html@),
{
    let mut body = String::new();
    if !author.is_empty() {
        body.append("<p><em>");
        body.append(encode_text(author).as_str());
        body.append("</em></p>\n");
    }
    if !published.is_empty() {
        body.append("<p>");
        body.append(encode_text(published).as_str());
        body.append("</p>\n");
    }
    body.append("<hr>\n");
    body.append("<p><strong>Full article content is not available.</strong><br>\n");
    body.append("The source website may require JavaScript or block automated access (Cloudflare challenge).</p>\n");
    let stripped = strip_html_tags(source_html);
    let stripped_chars = chars_of(stripped.as_str());
    let trimmed = string_of_chars(&trim_chars(&stripped_chars));
    if byte_len(trimmed.as_str()) > 20 {
        body.append("<hr>\n<blockquote>\n");
        let escaped = encode_text(trimmed.as_str());
        body.append(break_lines_of(escaped.as_str()).as_str());
        body.append("\n</blockquote>\n");
    }
    if !url.is_empty() {
        body.append("<p><a href=\"");
        body.append(encode_text(url).as_str());
        body.append("\">Open original article in browser</a></p>\n");
    }
    assert(body@ =~= fallback_details(author@, published@, url@, source_html@));
    body
}

/// Builds the fallback page body for an entry whose article text could not be extracted.
pub fn fallback_body(title: &str, author: &str, published: &str, url: &str, source_html: &str) -> (r: String)
    ensures
        r@ == fallback_body_spec(title@, author@, published@, url@, source_html@),
{
    let mut body = "<h1>".to_owned();
    body.append(encode_text(title).as_str());
    body.append("</h1>\n");
    let details = fallback_details_of(author, published, url, source_html);
    body.append(details.as_str());
    body
}

/// A source looks like feed metadata rather than an article when it is shorter than
/// 500 bytes or carries an `Article URL:` line.
pub open spec fn is_rss_metadata_spec(source_html: Seq<char>) -> bool {
    encode_utf8(source_html).len() < 500 || contains_seq(source_html, "Article URL:"@)
}

pub fn is_rss_metadata(source_html: &str) -> (b: bool)
    ensures
        b == is_rss_metadata_spec(source_html@),
{
    if byte_len(source_html) < 500 {
        return true;
    }
    let c = chars_of(source_html);
    let pat = chars_of("Article URL:");
    contains_chars(&c, &pat)
}

/// The fallback page is used when extraction failed or the source is feed metadata.
pub fn use_fallback_page(extracted: &DecruftOutput, source_html: &str) -> (b: bool)
    ensures
        b == (needs_fallback_spec(extracted.content@, opt_view(extracted.title))
            || is_rss_metadata_spec(source_html@)),
{
    extracted.needs_fallback() || is_rss_metadata(source_html)
}

/// The layer a reader page is rebuilt from.
#[derive(Debug, Clone, Copy, PartialEq, Eq)]
pub enum ReaderBuildStep {
    /// Render the stored Markdown.
    FromMarkdown,
    /// Convert the stored cleaned HTML to Markdown, then render it.
    FromCleanedHtml,
    /// Run the whole pipeline on the stored source HTML.
    FromSourceHtml,
    /// Fetch the article (or use the feed summary) and run the whole pipeline.
    Fetch,
}

/// The layer to rebuild from: the most processed one that is stored and, for the
/// Markdown and the cleaned HTML, was made by the current version of its stage (a
/// layer of another version is out of date and is rebuilt from the layer below).
pub open spec fn reader_build_step_spec(content: Option<Content>) -> ReaderBuildStep {
    match content {
        Some(c) => if c.markdown is Some && c.markdown_version == Some(MARKDOWN_VERSION) {
            ReaderBuildStep::FromMarkdown
        } else if c.cleaned_html is Some && c.readability_version == Some(READABILITY_VERSION) {
            ReaderBuildStep::FromCleanedHtml
        } else if c.html is Some {
            ReaderBuildStep::FromSourceHtml
        } else {
            ReaderBuildStep::Fetch
        },
        None => ReaderBuildStep::Fetch,
    }
}

pub fn reader_build_step(content: &Option<Content>) -> (r: ReaderBuildStep)
    ensures
        r == reader_build_step_spec(*content),
{
    match content {
        Some(c) => if c.markdown.is_some() && c.markdown_version == Some(MARKDOWN_VERSION) {
            ReaderBuildStep::FromMarkdown
        } else if c.cleaned_html.is_some() && c.readability_version == Some(READABILITY_VERSION) {
            ReaderBuildStep::FromCleanedHtml
        } else if c.html.is_some() {
            ReaderBuildStep::FromSourceHtml
        } else {
            ReaderBuildStep::Fetch
        },
        None => ReaderBuildStep::Fetch,
    }
}

/// A fetched article page is kept when the response succeeded and is not a Cloudflare
/// challenge; otherwise it counts as empty.
pub open spec fn accepted_article_spec(success: bool, body: Seq<char>) -> Seq<char> {
    if !success || contains_seq(body, "_cf_chl_opt"@) || contains_seq(body, "challenge-platform"@) {
        Seq::empty()
    } else {
        body
    }
}

pub fn accept_article_body(success: bool, body: String) -> (r: String)
    ensures
        r@ == accepted_article_spec(success, body@),
{
    if !success {
        return String::new();
    }
    let c = chars_of(body.as_str());
    let p1 = chars_of("_cf_chl_opt");
    let p2 = chars_of("challenge-platform");
    if contains_chars(&c, &p1) || contains_chars(&c, &p2) {
        String::new()
    } else {
        body
    }
}

/// The source of a fresh build: the fetched page when it holds text, else (the fetch
/// failed, was refused or was a challenge page) the feed summary; an error when that
/// is empty too.
pub open spec fn source_html_spec(fetched: Option<Seq<char>>, summary: Option<Seq<char>>) -> Result<Seq<char>, Seq<char>> {
    let src = match fetched {
        Some(f) if f.len() > 0 => f,
        _ => match summary {
            Some(s) => s,
            None => Seq::empty(),
        },
    };
    if src.len() == 0 { Err("No content available for this entry"@) } else { Ok(src) }
}

pub fn choose_source_html(fetched: Option<String>, summary: Option<String>) -> (r: Result<String, String>)
    ensures
        match r {
            Ok(s) => source_html_spec(opt_view(fetched), opt_view(summary)) == Ok::<Seq<char>, Seq<char>>(s@),
            Err(e) => source_html_spec(opt_view(fetched), opt_view(summary)) == Err::<Seq<char>, Seq<char>>(e@),
        },
{
    let page = match fetched {
        Some(f) => if f.as_str().is_empty() { None } else { Some(f) },
        None => None,
    };
    let src = match page {
        Some(f) => f,
        None => match summary {
            Some(s) => s,
            None => String::new(),
        },
    };
    if src.as_str().is_empty() {
        Err("No content available for this entry".to_owned())
    } else {
        Ok(src)
    }
}

/// The record stored after a fallback page: the entry's title and author (when not
/// empty), no article layers, display mode `empty`, so the source is not fetched again.
pub fn fallback_content(entry_id: i64, title: String, author: String) -> (r: Content)
    ensures
        r.entry_id == entry_id,
        r.html is None,
        r.cleaned_html is None,
        r.readability_title == Some(title),
        r.readability_byline == if author@.len() == 0 { None } else { Some(author) },
        r.readability_version == Some(READABILITY_VERSION),
        r.markdown is None,
        r.markdown_version is None,
        r.display_mode@ == "empty"@,
        r.document_base_url is None,
        r.pipeline_type@ == "default"@,
        r.resolved_intermediate_content is None,
{
    let byline = if author.as_str().is_empty() { None } else { Some(author) };
    Content {
        entry_id,
        html: None,
        cleaned_html: None,
        readability_title: Some(title),
        readability_byline: byline,
        readability_version: Some(READABILITY_VERSION),
        markdown: None,
        markdown_version: None,
        display_mode: "empty".to_owned(),
        document_base_url: None,
        pipeline_type: "default".to_owned(),
        resolved_intermediate_content: None,
    }
}

/// The record stored after a successful extraction: the source, the cleaned HTML, its
/// Markdown, and the extracted title and author, in display mode `cleaned`.
pub fn cleaned_content(entry_id: i64, source_html: &str, extracted: DecruftOutput, markdown: String) -> (r: Content)
    ensures
        r.entry_id == entry_id,
        r.html matches Some(h) && h@ == source_html@,
        r.cleaned_html == Some(extracted.content),
        r.readability_title == extracted.title,
        r.readability_byline == extracted.byline,
        r.readability_version == Some(READABILITY_VERSION),
        r.markdown == Some(markdown),
        r.markdown_version == Some(MARKDOWN_VERSION),
        r.display_mode@ == "cleaned"@,
        r.document_base_url is None,
        r.pipeline_type@ == "default"@,
        r.resolved_intermediate_content is None,
{
    Content {
        entry_id,
        html: Some(source_html.to_owned()),
        cleaned_html: Some(extracted.content),
        readability_title: extracted.title,
        readability_byline: extracted.byline,
        readability_version: Some(READABILITY_VERSION),
        markdown: Some(markdown),
        markdown_version: Some(MARKDOWN_VERSION),
        display_mode: "cleaned".to_owned(),
        document_base_url: None,
        pipeline_type: "default".to_owned(),
        resolved_intermediate_content: None,
    }
}

} // verus!
