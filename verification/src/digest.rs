//! Digests: the data a digest template is rendered with, which template a name
//! selects, and the rendering by Handlebars.
use vstd::prelude::*;
use crate::agent::summary::text_or_empty;
use crate::agent::translation::{json_quoted, json_string};
use crate::decimal::{format_u64, nat_digits};
use crate::text::{join_spec, join_strings, str_eq};

verus! {

/// One entry of a multi-entry digest.
#[derive(Debug, Clone)]
pub struct DigestEntryData {
    pub title: String,
    pub byline: Option<String>,
    pub content: String,
    pub published_at: Option<String>,
    pub url: Option<String>,
}

/// What a digest template is rendered with: the single-entry fields, or the entries
/// of a multi-entry digest.
#[derive(Debug, Clone)]
pub struct DigestTemplateData {
    pub digest_title: Option<String>,
    pub generated_at: String,
    pub entry_count: usize,
    pub title: Option<String>,
    pub byline: Option<String>,
    pub content: Option<String>,
    pub url: Option<String>,
    pub published_at: Option<String>,
    pub entries: Option<Vec<DigestEntryData>>,
}

/// The built-in digest templates.
#[derive(Debug, Clone, Copy, PartialEq, Eq, Structural)]
pub enum DigestTemplate {
    SingleText,
    SingleMarkdown,
    MultipleMarkdown,
}

/// The template a name selects: the Markdown templates by their names, the HTML
/// single-entry template for any other name.
pub open spec fn digest_template_spec(name: Seq<char>) -> DigestTemplate {
    if name == "single_markdown"@ {
        DigestTemplate::SingleMarkdown
    } else if name == "multiple_markdown"@ {
        DigestTemplate::MultipleMarkdown
    } else {
        DigestTemplate::SingleText
    }
}

/// The template that `template_name` selects.
pub fn digest_template_for(template_name: &str) -> (r: DigestTemplate)
    ensures
        r == digest_template_spec(template_name@),
{
    if str_eq(template_name, "single_markdown") {
        DigestTemplate::SingleMarkdown
    } else if str_eq(template_name, "multiple_markdown") {
        DigestTemplate::MultipleMarkdown
    } else {
        DigestTemplate::SingleText
    }
}

/// The view of an optional string.
pub open spec fn opt_text(s: Option<String>) -> Option<Seq<char>> {
    match s {
        Some(t) => Some(t@),
        None => None,
    }
}

/// The view of an optional string slice.
pub open spec fn opt_str(s: Option<&str>) -> Option<Seq<char>> {
    match s {
        Some(t) => Some(t@),
        None => None,
    }
}

fn owned(s: Option<&str>) -> (r: Option<String>)
    ensures
        opt_text(r) == opt_str(s),
{
    match s {
        Some(t) => Some(t.to_string()),
        None => None,
    }
}

/// The data of a single-entry digest: titled `Digest: <title>`, one entry, with the
/// entry's title, byline, content and link.
pub fn entry_digest_data(
    entry_title: &str,
    entry_byline: Option<&str>,
    entry_content: &str,
    entry_url: Option<&str>,
    generated_at: &str,
) -> (d: DigestTemplateData)
    ensures
        opt_text(d.digest_title) == Some("Digest: "@ + entry_title@),
        d.generated_at@ == generated_at@,
        d.entry_count == 1,
        opt_text(d.title) == Some(entry_title@),
        opt_text(d.byline) == opt_str(entry_byline),
        opt_text(d.content) == Some(entry_content@),
        opt_text(d.url) == opt_str(entry_url),
        d.published_at is None,
        d.entries is None,
{
    let mut heading = "Digest: ".to_string();
    heading.append(entry_title);
    DigestTemplateData {
        digest_title: Some(heading),
        generated_at: generated_at.to_string(),
        entry_count: 1,
        title: Some(entry_title.to_string()),
        byline: owned(entry_byline),
        content: Some(entry_content.to_string()),
        url: owned(entry_url),
        published_at: None,
        entries: None,
    }
}

/// The data of a multi-entry digest: its title, the entries and their count.
pub fn multi_digest_data(
    digest_title: Option<&str>,
    entries: Vec<DigestEntryData>,
    generated_at: &str,
) -> (d: DigestTemplateData)
    ensures
        opt_text(d.digest_title) == opt_str(digest_title),
        d.generated_at@ == generated_at@,
        d.entry_count == entries.len(),
        d.title is None,
        d.byline is None,
        d.content is None,
        d.url is None,
        d.published_at is None,
        d.entries matches Some(v) && v@ == entries@,
{
    let count = entries.len();
    DigestTemplateData {
        digest_title: owned(digest_title),
        generated_at: generated_at.to_string(),
        entry_count: count,
        title: None,
        byline: None,
        content: None,
        url: None,
        published_at: None,
        entries: Some(entries),
    }
}

/// The title of the digests exported for several entries.
pub const MULTI_DIGEST_TITLE: &'static str = "Mercury Digest";

/// One entry of an exported digest, from the entry's fields and its Markdown: the
/// title is empty when the entry has none.
pub fn digest_entry(
    title: Option<String>,
    author: Option<String>,
    markdown: &str,
    published_at: Option<String>,
    url: Option<String>,
) -> (e: DigestEntryData)
    ensures
        e.title@ == text_or_empty(title),
        opt_text(e.byline) == opt_text(author),
        e.content@ == markdown@,
        opt_text(e.published_at) == opt_text(published_at),
        opt_text(e.url) == opt_text(url),
{
    let t = match title {
        Some(t) => t,
        None => String::new(),
    };
    DigestEntryData { title: t, byline: author, content: markdown.to_string(), published_at, url }
}

/// An optional string as JSON: its literal, or `null`.
pub open spec fn json_opt(s: Option<String>) -> Seq<char> {
    match s {
        Some(t) => json_quoted(t@),
        None => "null"@,
    }
}

/// An entry of a digest as a JSON object, fields in declaration order.
pub open spec fn entry_json_spec(e: DigestEntryData) -> Seq<char> {
    "{\"title\":"@ + json_quoted(e.title@) + ",\"byline\":"@ + json_opt(e.byline) + ",\"content\":"@
        + json_quoted(e.content@) + ",\"published_at\":"@ + json_opt(e.published_at) + ",\"url\":"@
        + json_opt(e.url) + "}"@
}

/// A member `,"key":value` of the digest object, written only when the field is set.
pub open spec fn json_member(key: Seq<char>, s: Option<String>) -> Seq<char> {
    match s {
        Some(t) => ",\""@ + key + "\":"@ + json_quoted(t@),
        None => Seq::empty(),
    }
}

/// The data of a digest as a JSON object: the title (or `null`), the time and the
/// entry count always; each single-entry field and the entries only when set.
pub open spec fn digest_json_spec(d: DigestTemplateData) -> Seq<char> {
    "{\"digest_title\":"@ + json_opt(d.digest_title) + ",\"generated_at\":"@ + json_quoted(d.generated_at@)
        + ",\"entry_count\":"@ + nat_digits(d.entry_count as nat) + json_member("title"@, d.title)
        + json_member("byline"@, d.byline) + json_member("content"@, d.content) + json_member("url"@, d.url)
        + json_member("published_at"@, d.published_at) + match d.entries {
        Some(es) => ",\"entries\":["@ + join_spec(es@.map_values(|e: DigestEntryData| entry_json_spec(e)), ","@)
            + "]"@,
        None => Seq::empty(),
    } + "}"@
}

/// The member `,"key":value` of a set field, as it appears in the JSON of a digest.
pub open spec fn member_text(key: Seq<char>, value: Seq<char>) -> Seq<char> {
    ",\""@ + key + "\":"@ + json_quoted(value)
}

/// The JSON a template reads carries every set single-entry field under its own name:
/// the title, byline, content, URL and publication date that a digest has, each as a
/// JSON string.
pub proof fn digest_json_has_set_fields(d: DigestTemplateData)
    ensures
        d.title matches Some(t) ==> exists|h: Seq<char>, r: Seq<char>|
            digest_json_spec(d) == h + member_text("title"@, t@) + r,
        d.byline matches Some(b) ==> exists|h: Seq<char>, r: Seq<char>|
            digest_json_spec(d) == h + member_text("byline"@, b@) + r,
        d.content matches Some(c) ==> exists|h: Seq<char>, r: Seq<char>|
            digest_json_spec(d) == h + member_text("content"@, c@) + r,
        d.url matches Some(u) ==> exists|h: Seq<char>, r: Seq<char>|
            digest_json_spec(d) == h + member_text("url"@, u@) + r,
        d.published_at matches Some(p) ==> exists|h: Seq<char>, r: Seq<char>|
            digest_json_spec(d) == h + member_text("published_at"@, p@) + r,
{
    let head = "{\"digest_title\":"@ + json_opt(d.digest_title) + ",\"generated_at\":"@ + json_quoted(d.generated_at@)
        + ",\"entry_count\":"@ + nat_digits(d.entry_count as nat);
    let tail = match d.entries {
        Some(es) => ",\"entries\":["@ + join_spec(es@.map_values(|e: DigestEntryData| entry_json_spec(e)), ","@)
            + "]"@,
        None => Seq::empty(),
    } + "}"@;
    assert(digest_json_spec(d) =~= head + json_member("title"@, d.title) + json_member("byline"@, d.byline)
        + json_member("content"@, d.content) + json_member("url"@, d.url) + json_member("published_at"@, d.published_at)
        + tail);
    lemma_members_found(
        digest_json_spec(d),
        head,
        json_member("title"@, d.title),
        json_member("byline"@, d.byline),
        json_member("content"@, d.content),
        json_member("url"@, d.url),
        json_member("published_at"@, d.published_at),
        tail,
        d,
    );
}

/// Seven pieces joined in order, grouped around each of the five middle ones.
proof fn lemma_regroup(a: Seq<char>, b: Seq<char>, c: Seq<char>, d: Seq<char>, e: Seq<char>, f: Seq<char>, g: Seq<char>)
    ensures
        a + b + c + d + e + f + g == a + b + (c + d + e + f + g),
        a + b + c + d + e + f + g == (a + b) + c + (d + e + f + g),
        a + b + c + d + e + f + g == (a + b + c) + d + (e + f + g),
        a + b + c + d + e + f + g == (a + b + c + d) + e + (f + g),
        a + b + c + d + e + f + g == (a + b + c + d + e) + f + g,
{
    assert(a + b + c + d + e + f + g =~= a + b + (c + d + e + f + g));
    assert(a + b + c + d + e + f + g =~= (a + b) + c + (d + e + f + g));
    assert(a + b + c + d + e + f + g =~= (a + b + c) + d + (e + f + g));
    assert(a + b + c + d + e + f + g =~= (a + b + c + d) + e + (f + g));
}

proof fn lemma_members_found(
    all: Seq<char>,
    head: Seq<char>,
    mt: Seq<char>,
    mb: Seq<char>,
    mc: Seq<char>,
    mu: Seq<char>,
    mp: Seq<char>,
    tail: Seq<char>,
    d: DigestTemplateData,
)
    requires
        all == head + mt + mb + mc + mu + mp + tail,
        mt == json_member("title"@, d.title),
        mb == json_member("byline"@, d.byline),
        mc == json_member("content"@, d.content),
        mu == json_member("url"@, d.url),
        mp == json_member("published_at"@, d.published_at),
    ensures
        d.title matches Some(t) ==> exists|h: Seq<char>, r: Seq<char>| all == h + member_text("title"@, t@) + r,
        d.byline matches Some(b) ==> exists|h: Seq<char>, r: Seq<char>| all == h + member_text("byline"@, b@) + r,
        d.content matches Some(c) ==> exists|h: Seq<char>, r: Seq<char>| all == h + member_text("content"@, c@) + r,
        d.url matches Some(u) ==> exists|h: Seq<char>, r: Seq<char>| all == h + member_text("url"@, u@) + r,
        d.published_at matches Some(p) ==> exists|h: Seq<char>, r: Seq<char>|
            all == h + member_text("published_at"@, p@) + r,
{
    lemma_regroup(head, mt, mb, mc, mu, mp, tail);
    if let Some(t) = d.title {
        assert(mt == member_text("title"@, t@));
        assert(all == head + member_text("title"@, t@) + (mb + mc + mu + mp + tail));
    }
    if let Some(b) = d.byline {
        assert(mb == member_text("byline"@, b@));
        assert(all == (head + mt) + member_text("byline"@, b@) + (mc + mu + mp + tail));
    }
    if let Some(c) = d.content {
        assert(mc == member_text("content"@, c@));
        assert(all == (head + mt + mb) + member_text("content"@, c@) + (mu + mp + tail));
    }
    if let Some(u) = d.url {
        assert(mu == member_text("url"@, u@));
        assert(all == (head + mt + mb + mc) + member_text("url"@, u@) + (mp + tail));
    }
    if let Some(p) = d.published_at {
        assert(mp == member_text("published_at"@, p@));
        assert(all == (head + mt + mb + mc + mu) + member_text("published_at"@, p@) + tail);
    }
}

fn json_opt_text(s: &Option<String>) -> (r: String)
    ensures
        r@ == json_opt(*s),
{
    match s {
        Some(t) => json_string(t.as_str()),
        None => "null".to_string(),
    }
}

fn push_member(out: &mut String, key: &str, s: &Option<String>)
    ensures
        final(out)@ == old(out)@ + json_member(key@, *s),
{
    match s {
        Some(t) => {
            out.append(",\"");
            out.append(key);
            out.append("\":");
            out.append(json_string(t.as_str()).as_str());
        },
        None => {},
    }
}

fn entry_json(e: &DigestEntryData) -> (r: String)
    ensures
        r@ == entry_json_spec(*e),
{
    let mut r = "{\"title\":".to_string();
    r.append(json_string(e.title.as_str()).as_str());
    r.append(",\"byline\":");
    r.append(json_opt_text(&e.byline).as_str());
    r.append(",\"content\":");
    r.append(json_string(e.content.as_str()).as_str());
    r.append(",\"published_at\":");
    r.append(json_opt_text(&e.published_at).as_str());
    r.append(",\"url\":");
    r.append(json_opt_text(&e.url).as_str());
    r.append("}");
    r
}

/// The data of a digest as the JSON text the template engine reads.
pub fn digest_json(d: &DigestTemplateData) -> (r: String)
    ensures
        r@ == digest_json_spec(*d),
{
    let mut r = "{\"digest_title\":".to_string();
    r.append(json_opt_text(&d.digest_title).as_str());
    r.append(",\"generated_at\":");
    r.append(json_string(d.generated_at.as_str()).as_str());
    r.append(",\"entry_count\":");
    r.append(format_u64(d.entry_count as u64).as_str());
    push_member(&mut r, "title", &d.title);
    push_member(&mut r, "byline", &d.byline);
    push_member(&mut r, "content", &d.content);
    push_member(&mut r, "url", &d.url);
    push_member(&mut r, "published_at", &d.published_at);
    let ghost before = r@;
    match &d.entries {
        Some(es) => {
            let mut parts: Vec<String> = Vec::new();
            for i in 0..es.len()
                invariant
                    parts@.map_values(|s: String| s@) == es@.take(i as int).map_values(
                        |e: DigestEntryData| entry_json_spec(e),
                    ),
            {
                let ghost p0 = parts@;
                let item = entry_json(&es[i]);
                let ghost iv = item@;
                parts.push(item);
                assert(parts@.map_values(|s: String| s@) =~= p0.map_values(|s: String| s@).push(iv));
                assert(es@.take(i + 1) =~= es@.take(i as int).push(es@[i as int]));
                assert(parts@.map_values(|s: String| s@) =~= es@.take(i + 1).map_values(
                    |e: DigestEntryData| entry_json_spec(e),
                ));
            }
            assert(es@.take(es.len() as int) =~= es@);
            r.append(",\"entries\":[");
            r.append(join_strings(&parts, ",").as_str());
            r.append("]");
        },
        None => {},
    }
    r.append("}");
    assert(r@ =~= digest_json_spec(*d));
    r
}

/// Why Handlebars could not render a digest.
#[derive(Debug, Clone, PartialEq, Eq)]
pub enum DigestRenderError {
    /// The template text is not a valid template.
    Template(String),
    /// The template failed on the data.
    Render(String),
}

/// What Handlebars (no HTML escaping) makes of a template on JSON data: the text, or
/// the error, marked `true` when the template itself was refused.
pub uninterp spec fn handlebars_digest(template: Seq<char>, data_json: Seq<char>) -> Result<Seq<char>, (bool, Seq<char>)>;

/// `handlebars::Handlebars::render` of `template`, registered with escaping turned off
/// (`no_escape`), on the JSON value `serde_json::from_str` reads from `data_json`: the
/// rendered text, a template error, or a render error (also when the data is not JSON).
#[verifier::external_body]
fn handlebars_render(template: &str, data_json: &str) -> (r: Result<String, DigestRenderError>)
    ensures
        match r {
            Ok(s) => handlebars_digest(template@, data_json@) == Ok::<Seq<char>, (bool, Seq<char>)>(s@),
            Err(DigestRenderError::Template(m)) => handlebars_digest(template@, data_json@) == Err::<Seq<char>, (bool, Seq<char>)>((true, m@)),
            Err(DigestRenderError::Render(m)) => handlebars_digest(template@, data_json@) == Err::<Seq<char>, (bool, Seq<char>)>((false, m@)),
        },
{
    let data: serde_json::Value = serde_json::from_str(data_json).map_err(|e| DigestRenderError::Render(e.to_string()))?;
    let mut hb = handlebars::Handlebars::new();
    hb.register_escape_fn(handlebars::no_escape);
    hb.register_template_string("digest", template).map_err(|e| DigestRenderError::Template(e.to_string()))?;
    hb.render("digest", &data).map_err(|e| DigestRenderError::Render(e.to_string()))
}

/// Renders a digest: the template text (see `digest_template_for` for the built-in
/// ones) on the digest's data, without HTML escaping; an error that says whether the
/// template or the rendering failed.
pub fn render_digest(template_text: &str, data: &DigestTemplateData) -> (r: Result<String, String>)
    ensures
        match handlebars_digest(template_text@, digest_json_spec(*data)) {
            Ok(s) => r matches Ok(x) && x@ == s,
            Err((true, m)) => r matches Err(e) && e@ == "Template register error: "@ + m,
            Err((false, m)) => r matches Err(e) && e@ == "Render error: "@ + m,
        },
{
    let json = digest_json(data);
    match handlebars_render(template_text, json.as_str()) {
        Ok(s) => Ok(s),
        Err(DigestRenderError::Template(m)) => {
            let mut e = "Template register error: ".to_string();
            e.append(m.as_str());
            Err(e)
        },
        Err(DigestRenderError::Render(m)) => {
            let mut e = "Render error: ".to_string();
            e.append(m.as_str());
            Err(e)
        },
    }
}

} // verus!
