//! OPML export: the XML document of a subscription list.
use vstd::prelude::*;
use crate::db::models::FeedWithCounts;
use crate::text::{chars_of, push_char};

verus! {

/// A feed as written to an OPML document.
#[derive(Debug, Clone)]
pub struct OpmlFeedData {
    pub title: String,
    pub feed_url: String,
    pub site_url: Option<String>,
}

/// A folder of feeds in an OPML document.
#[derive(Debug, Clone)]
pub struct OpmlFolderData {
    pub name: String,
    pub feeds: Vec<OpmlFeedData>,
}

/// The XML escape of one character of an attribute value.
pub open spec fn xml_escape_char(c: char) -> Seq<char> {
    if c == '&' {
        "&amp;"@
    } else if c == '"' {
        "&quot;"@
    } else if c == '<' {
        "&lt;"@
    } else if c == '>' {
        "&gt;"@
    } else {
        seq![c]
    }
}

/// `s` with `&`, `"`, `<` and `>` escaped for an XML attribute.
pub open spec fn xml_escape(s: Seq<char>) -> Seq<char>
    decreases s.len(),
{
    if s.len() == 0 { Seq::empty() } else { xml_escape(s.drop_last()) + xml_escape_char(s.last()) }
}

/// Escaped text cannot end an attribute or open a tag: it holds no `"`, `<` or `>`.
pub proof fn lemma_xml_escape_safe(s: Seq<char>)
    ensures
        forall|i: int|
            0 <= i < xml_escape(s).len() ==> {
                let c = #[trigger] xml_escape(s)[i];
                c != '"' && c != '<' && c != '>'
            },
    decreases s.len(),
{
    reveal_strlit("&amp;");
    reveal_strlit("&quot;");
    reveal_strlit("&lt;");
    reveal_strlit("&gt;");
    if s.len() > 0 {
        lemma_xml_escape_safe(s.drop_last());
        let a = xml_escape(s.drop_last());
        let b = xml_escape_char(s.last());
        assert forall|i: int| 0 <= i < xml_escape(s).len() implies {
            let c = #[trigger] xml_escape(s)[i];
            c != '"' && c != '<' && c != '>'
        } by {
            if i < a.len() {
                assert(xml_escape(s)[i] == a[i]);
            } else {
                assert(xml_escape(s)[i] == b[i - a.len()]);
            }
        }
    }
}

/// Escapes `&`, `"`, `<` and `>` for an XML attribute value.
pub fn escape_xml(s: &str) -> (r: String)
    ensures
        r@ == xml_escape(s@),
{
    let c = chars_of(s);
    let mut out = String::new();
    let mut i: usize = 0;
    assert(c@.take(0) =~= Seq::<char>::empty());
    while i < c.len()
        invariant
            i <= c.len(),
            out@ == xml_escape(c@.take(i as int)),
        decreases c.len() - i,
    {
        assert(c@.take(i + 1).drop_last() =~= c@.take(i as int));
        assert(c@.take(i + 1).last() == c@[i as int]);
        let ch = c[i];
        if ch == '&' {
            out.append("&amp;");
        } else if ch == '"' {
            out.append("&quot;");
        } else if ch == '<' {
            out.append("&lt;");
        } else if ch == '>' {
            out.append("&gt;");
        } else {
            push_char(&mut out, ch);
        }
        i += 1;
    }
    assert(c@.take(c.len() as int) =~= s@);
    out
}

/// The outline element of a feed, on its own line after `indent`.
pub open spec fn outline_spec(indent: Seq<char>, f: OpmlFeedData) -> Seq<char> {
    indent + "<outline text=\""@ + xml_escape(f.title@) + "\" title=\""@ + xml_escape(f.title@)
        + "\" type=\"rss\" xmlUrl=\""@ + xml_escape(f.feed_url@) + "\" htmlUrl=\""@
        + xml_escape(match f.site_url { Some(u) => u@, None => Seq::empty() }) + "\"/>\n"@
}

/// The outline elements of a list of feeds.
pub open spec fn outlines_spec(indent: Seq<char>, feeds: Seq<OpmlFeedData>) -> Seq<char>
    decreases feeds.len(),
{
    if feeds.len() == 0 {
        Seq::empty()
    } else {
        outlines_spec(indent, feeds.drop_last()) + outline_spec(indent, feeds.last())
    }
}

/// The outline element of a folder, holding those of its feeds.
pub open spec fn folder_spec(f: OpmlFolderData) -> Seq<char> {
    "    <outline text=\""@ + xml_escape(f.name@) + "\" title=\""@ + xml_escape(f.name@) + "\">\n"@
        + outlines_spec("      "@, f.feeds@) + "    </outline>\n"@
}

/// The outline elements of a list of folders.
pub open spec fn folders_spec(folders: Seq<OpmlFolderData>) -> Seq<char>
    decreases folders.len(),
{
    if folders.len() == 0 {
        Seq::empty()
    } else {
        folders_spec(folders.drop_last()) + folder_spec(folders.last())
    }
}

/// The head of an OPML document, up to its creation date.
pub const OPML_HEAD: &'static str = "<?xml version=\"1.0\" encoding=\"UTF-8\"?>\n<opml version=\"2.0\">\n  <head>\n    <title>Mercury Feeds</title>\n    <dateCreated>";
/// The document between the creation date and the outlines.
pub const OPML_BODY_START: &'static str = "</dateCreated>\n  </head>\n  <body>\n";
/// The end of the document.
pub const OPML_END: &'static str = "  </body>\n</opml>\n";

/// The OPML document of a subscription list: feeds outside folders first, then each
/// folder with its feeds.
pub open spec fn opml_document_spec(date_created: Seq<char>, feeds: Seq<OpmlFeedData>, folders: Seq<OpmlFolderData>) -> Seq<char> {
    OPML_HEAD@ + date_created + OPML_BODY_START@ + outlines_spec("    "@, feeds) + folders_spec(folders) + OPML_END@
}

/// Appends the outline element of a feed.
pub fn push_outline(buf: &mut String, indent: &str, feed: &OpmlFeedData)
    ensures
        final(buf)@ == old(buf)@ + outline_spec(indent@, *feed),
{
    buf.append(indent);
    buf.append("<outline text=\"");
    buf.append(escape_xml(feed.title.as_str()).as_str());
    buf.append("\" title=\"");
    buf.append(escape_xml(feed.title.as_str()).as_str());
    buf.append("\" type=\"rss\" xmlUrl=\"");
    buf.append(escape_xml(feed.feed_url.as_str()).as_str());
    buf.append("\" htmlUrl=\"");
    let site: &str = match &feed.site_url {
        Some(u) => u.as_str(),
        None => "",
    };
    proof {
        reveal_strlit("");
    }
    buf.append(escape_xml(site).as_str());
    buf.append("\"/>\n");
}

fn push_outlines(buf: &mut String, indent: &str, feeds: &[OpmlFeedData])
    ensures
        final(buf)@ == old(buf)@ + outlines_spec(indent@, feeds@),
{
    let mut i: usize = 0;
    let ghost start = buf@;
    assert(feeds@.take(0) =~= Seq::<OpmlFeedData>::empty());
    assert(buf@ =~= start + outlines_spec(indent@, feeds@.take(0)));
    while i < feeds.len()
        invariant
            i <= feeds.len(),
            buf@ == start + outlines_spec(indent@, feeds@.take(i as int)),
        decreases feeds.len() - i,
    {
        assert(feeds@.take(i + 1).drop_last() =~= feeds@.take(i as int));
        assert(feeds@.take(i + 1).last() == feeds@[i as int]);
        push_outline(buf, indent, &feeds[i]);
        i += 1;
    }
    assert(feeds@.take(feeds.len() as int) =~= feeds@);
}

/// Builds the OPML document of a subscription list created at `date_created`.
pub fn build_opml(date_created: &str, feeds: &[OpmlFeedData], folders: &[OpmlFolderData]) -> (r: String)
    ensures
        r@ == opml_document_spec(date_created@, feeds@, folders@),
{
    let mut xml = OPML_HEAD.to_owned();
    xml.append(date_created);
    xml.append(OPML_BODY_START);
    push_outlines(&mut xml, "    ", feeds);
    let ghost before = xml@;
    let mut i: usize = 0;
    assert(folders@.take(0) =~= Seq::<OpmlFolderData>::empty());
    while i < folders.len()
        invariant
            i <= folders.len(),
            xml@ == before + folders_spec(folders@.take(i as int)),
        decreases folders.len() - i,
    {
        assert(folders@.take(i + 1).drop_last() =~= folders@.take(i as int));
        assert(folders@.take(i + 1).last() == folders@[i as int]);
        let folder = &folders[i];
        xml.append("    <outline text=\"");
        xml.append(escape_xml(folder.name.as_str()).as_str());
        xml.append("\" title=\"");
        xml.append(escape_xml(folder.name.as_str()).as_str());
        xml.append("\">\n");
        push_outlines(&mut xml, "      ", folder.feeds.as_slice());
        xml.append("    </outline>\n");
        i += 1;
    }
    assert(folders@.take(folders.len() as int) =~= folders@);
    xml.append(OPML_END);
    xml
}

/// Whether a feed is exported: every feed when no ids are given, else those listed.
pub open spec fn exported(feed_ids: Option<Seq<i64>>, id: i64) -> bool {
    match feed_ids {
        Some(ids) => ids.contains(id),
        None => true,
    }
}

/// The OPML data of a stored feed; an untitled feed is written as `Untitled`.
pub open spec fn opml_feed_of(f: FeedWithCounts) -> (Seq<char>, Seq<char>, Option<Seq<char>>) {
    (
        match f.title { Some(t) => t@, None => "Untitled"@ },
        f.feed_url@,
        match f.site_url { Some(u) => Some(u@), None => None },
    )
}

pub open spec fn opml_feed_view(f: OpmlFeedData) -> (Seq<char>, Seq<char>, Option<Seq<char>>) {
    (f.title@, f.feed_url@, match f.site_url { Some(u) => Some(u@), None => None })
}

/// The exported feeds of a list, in order.
pub open spec fn export_list_spec(feeds: Seq<FeedWithCounts>, feed_ids: Option<Seq<i64>>) -> Seq<(Seq<char>, Seq<char>, Option<Seq<char>>)>
    decreases feeds.len(),
{
    if feeds.len() == 0 {
        Seq::empty()
    } else {
        let init = export_list_spec(feeds.drop_last(), feed_ids);
        if exported(feed_ids, feeds.last().id) { init.push(opml_feed_of(feeds.last())) } else { init }
    }
}

fn clone_opt(s: &Option<String>) -> (r: Option<String>)
    ensures
        r == *s,
{
    match s {
        Some(x) => Some(x.clone()),
        None => None,
    }
}

/// The feeds to export: those whose ids are listed, or all when no ids are given.
pub fn opml_export_feeds(feeds: &Vec<FeedWithCounts>, feed_ids: &Option<Vec<i64>>) -> (r: Vec<OpmlFeedData>)
    ensures
        r@.map_values(|f: OpmlFeedData| opml_feed_view(f))
            == export_list_spec(feeds@, match feed_ids { Some(v) => Some(v@), None => None }),
{
    let ghost ids = match feed_ids { Some(v) => Some(v@), None => None };
    let mut out: Vec<OpmlFeedData> = Vec::new();
    let mut i: usize = 0;
    assert(feeds@.take(0) =~= Seq::<FeedWithCounts>::empty());
    assert(out@.map_values(|f: OpmlFeedData| opml_feed_view(f)) =~= export_list_spec(feeds@.take(0), ids));
    while i < feeds.len()
        invariant
            i <= feeds.len(),
            ids == match feed_ids { Some(v) => Some(v@), None => None },
            out@.map_values(|f: OpmlFeedData| opml_feed_view(f)) == export_list_spec(feeds@.take(i as int), ids),
        decreases feeds.len() - i,
    {
        assert(feeds@.take(i + 1).drop_last() =~= feeds@.take(i as int));
        assert(feeds@.take(i + 1).last() == feeds@[i as int]);
        let f = &feeds[i];
        let wanted = match feed_ids {
            Some(v) => {
                let mut found = false;
                let mut k: usize = 0;
                while k < v.len()
                    invariant
                        k <= v.len(),
                        found == exists|m: int| 0 <= m < k && v@[m] == f.id,
                    decreases v.len() - k,
                {
                    if v[k] == f.id {
                        found = true;
                    }
                    k += 1;
                }
                proof {
                    if found {
                        let m = choose|m: int| 0 <= m < v.len() && v@[m] == f.id;
                        assert(v@.contains(f.id));
                    }
                }
                found
            },
            None => true,
        };
        let ghost prev = out@;
        if wanted {
            let title = match &f.title {
                Some(t) => t.clone(),
                None => "Untitled".to_owned(),
            };
            let d = OpmlFeedData { title, feed_url: f.feed_url.clone(), site_url: clone_opt(&f.site_url) };
            out.push(d);
            assert(out@ =~= prev.push(d));
            assert(out@.map_values(|f: OpmlFeedData| opml_feed_view(f)) =~= prev.map_values(|f: OpmlFeedData| opml_feed_view(f)).push(opml_feed_view(d)));
        }
        i += 1;
    }
    assert(feeds@.take(feeds.len() as int) =~= feeds@);
    out
}

} // verus!
