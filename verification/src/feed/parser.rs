//! Reading a parsed RSS, Atom or JSON feed document: its title, its site, its entries.
use vstd::prelude::*;
use crate::db::entry_store::RawEntryData;
use feed_rs::model::Entry as FeedRsEntry;

verus! {

/// A link of a feed document.
#[derive(Debug, Clone)]
pub struct FeedLink {
    pub rel: Option<String>,
    pub href: String,
}

/// An entry of a feed document as the feed parser reads it; dates are in RFC 3339.
#[derive(Debug, Clone)]
pub struct FeedItem {
    pub id: String,
    pub link_hrefs: Vec<String>,
    pub title: Option<String>,
    pub summary: Option<String>,
    pub published: Option<String>,
    pub updated: Option<String>,
    pub author_names: Vec<Option<String>>,
}

/// A feed document as the feed parser reads it.
#[derive(Debug, Clone)]
pub struct FeedDocument {
    pub title: Option<String>,
    pub links: Vec<FeedLink>,
    pub entries: Vec<FeedItem>,
}

/// Parsed feed with metadata and entries.
#[derive(Debug, Clone)]
pub struct ParsedFeed {
    pub title: Option<String>,
    pub site_url: Option<String>,
    pub entries: Vec<RawEntryData>,
}

pub open spec fn opt_str(o: Option<String>) -> Option<Seq<char>> {
    match o {
        Some(s) => Some(s@),
        None => None,
    }
}

/// The site of a feed: the target of its first link whose relation is `alternate`.
pub open spec fn site_url_spec(links: Seq<FeedLink>) -> Option<Seq<char>>
    decreases links.len(),
{
    if links.len() == 0 {
        None
    } else if opt_str(links[0].rel) == Some("alternate"@) {
        Some(links[0].href@)
    } else {
        site_url_spec(links.drop_first())
    }
}

/// An entry as it is stored: its id as GUID, its first link as URL, its publication
/// date (else its update date), and the name of its first author, if that author has one.
pub open spec fn raw_entry_spec(e: FeedItem) -> (Seq<char>, Option<Seq<char>>, Option<Seq<char>>, Option<Seq<char>>, Option<Seq<char>>, Option<Seq<char>>) {
    (
        e.id@,
        if e.link_hrefs@.len() > 0 { Some(e.link_hrefs@[0]@) } else { None },
        opt_str(e.title),
        if e.author_names@.len() > 0 { opt_str(e.author_names@[0]) } else { None },
        match e.published { Some(p) => Some(p@), None => opt_str(e.updated) },
        opt_str(e.summary),
    )
}

pub open spec fn raw_entry_view(r: RawEntryData) -> (Seq<char>, Option<Seq<char>>, Option<Seq<char>>, Option<Seq<char>>, Option<Seq<char>>, Option<Seq<char>>) {
    (r.guid@, opt_str(r.url), opt_str(r.title), opt_str(r.author), opt_str(r.published_at), opt_str(r.summary))
}

fn clone_opt(s: &Option<String>) -> (r: Option<String>)
    ensures
        r == *s,
{
    match s {
        Some(x) => Some(x.clone()),
        None => None,
    }
}

fn site_url_of(links: &Vec<FeedLink>) -> (r: Option<String>)
    ensures
        opt_str(r) == site_url_spec(links@),
{
    let mut i: usize = 0;
    assert(links@.skip(0) =~= links@);
    while i < links.len()
        invariant
            i <= links.len(),
            site_url_spec(links@) == site_url_spec(links@.skip(i as int)),
        decreases links.len() - i,
    {
        assert(links@.skip(i as int).drop_first() =~= links@.skip(i + 1));
        assert(links@.skip(i as int)[0] == links@[i as int]);
        let alternate = match &links[i].rel {
            Some(r) => r.as_str().to_owned() == "alternate".to_owned(),
            None => false,
        };
        if alternate {
            return Some(links[i].href.clone());
        }
        i += 1;
    }
    None
}

fn raw_entry_of(e: &FeedItem) -> (r: RawEntryData)
    ensures
        raw_entry_view(r) == raw_entry_spec(*e),
{
    RawEntryData {
        guid: e.id.clone(),
        url: if e.link_hrefs.len() > 0 { Some(e.link_hrefs[0].clone()) } else { None },
        title: clone_opt(&e.title),
        author: if e.author_names.len() > 0 { clone_opt(&e.author_names[0]) } else { None },
        published_at: match &e.published {
            Some(p) => Some(p.clone()),
            None => clone_opt(&e.updated),
        },
        summary: clone_opt(&e.summary),
    }
}

/// Extracts the title, site and entries of a parsed feed document.
pub fn parsed_feed(doc: &FeedDocument) -> (r: ParsedFeed)
    ensures
        opt_str(r.title) == opt_str(doc.title),
        opt_str(r.site_url) == site_url_spec(doc.links@),
        r.entries@.map_values(|x: RawEntryData| raw_entry_view(x))
            == doc.entries@.map_values(|e: FeedItem| raw_entry_spec(e)),
{
    let mut entries: Vec<RawEntryData> = Vec::new();
    let mut i: usize = 0;
    while i < doc.entries.len()
        invariant
            i <= doc.entries.len(),
            entries@.map_values(|x: RawEntryData| raw_entry_view(x))
                == doc.entries@.take(i as int).map_values(|e: FeedItem| raw_entry_spec(e)),
        decreases doc.entries.len() - i,
    {
        let ghost prev = entries@;
        let r = raw_entry_of(&doc.entries[i]);
        entries.push(r);
        assert(entries@ =~= prev.push(r));
        assert(entries@.map_values(|x: RawEntryData| raw_entry_view(x))
            =~= prev.map_values(|x: RawEntryData| raw_entry_view(x)).push(raw_entry_view(r)));
        assert(doc.entries@.take(i + 1) =~= doc.entries@.take(i as int).push(doc.entries@[i as int]));
        assert(entries@.map_values(|x: RawEntryData| raw_entry_view(x))
            =~= doc.entries@.take(i + 1).map_values(|e: FeedItem| raw_entry_spec(e)));
        i += 1;
    }
    assert(doc.entries@.take(doc.entries.len() as int) =~= doc.entries@);
    ParsedFeed { title: clone_opt(&doc.title), site_url: site_url_of(&doc.links), entries }
}

/// What a feed says of one of its links: its relation and its target.
pub open spec fn link_reading(l: FeedLink) -> (Option<Seq<char>>, Seq<char>) {
    (opt_str(l.rel), l.href@)
}

/// What a feed says of one of its entries: its id where the entry has a link (feed-rs
/// gives an entry with neither id nor link a random one), the targets of its links,
/// its title, summary, publication and update dates, and the names of its authors.
pub open spec fn entry_reading(e: FeedItem) -> (
    Option<Seq<char>>,
    Seq<Seq<char>>,
    Option<Seq<char>>,
    Option<Seq<char>>,
    Option<Seq<char>>,
    Option<Seq<char>>,
    Seq<Option<Seq<char>>>,
) {
    (
        if e.link_hrefs@.len() > 0 { Some(e.id@) } else { None },
        e.link_hrefs@.map_values(|h: String| h@),
        opt_str(e.title),
        opt_str(e.summary),
        opt_str(e.published),
        opt_str(e.updated),
        e.author_names@.map_values(|a: Option<String>| opt_str(a)),
    )
}

/// What a feed document says: its title, its links and its entries, in order.
pub open spec fn document_reading(d: FeedDocument) -> (
    Option<Seq<char>>,
    Seq<(Option<Seq<char>>, Seq<char>)>,
    Seq<(
        Option<Seq<char>>,
        Seq<Seq<char>>,
        Option<Seq<char>>,
        Option<Seq<char>>,
        Option<Seq<char>>,
        Option<Seq<char>>,
        Seq<Option<Seq<char>>>,
    )>,
) {
    (
        opt_str(d.title),
        d.links@.map_values(|l: FeedLink| link_reading(l)),
        d.entries@.map_values(|e: FeedItem| entry_reading(e)),
    )
}

/// What feed-rs reads from the bytes of a feed (see `document_reading`), or the text
/// of its error when they hold no RSS, Atom or JSON feed.
pub uninterp spec fn feed_rs_reading(bytes: Seq<u8>) -> Result<
    (
        Option<Seq<char>>,
        Seq<(Option<Seq<char>>, Seq<char>)>,
        Seq<(
            Option<Seq<char>>,
            Seq<Seq<char>>,
            Option<Seq<char>>,
            Option<Seq<char>>,
            Option<Seq<char>>,
            Option<Seq<char>>,
            Seq<Option<Seq<char>>>,
        )>,
    ),
    Seq<char>,
>;

#[verifier::external_type_specification]
#[verifier::external_body]
pub struct ExFeedRsEntry(FeedRsEntry);

/// `feed_rs::parser::parse`: the RSS, Atom or JSON feed that `bytes` hold, as plain
/// values (texts by their content, dates in RFC 3339), or the text of the parser's
/// error. The document's reading is named: a function of the bytes, as feed-rs's
/// source shows, but for the random id it gives an entry with neither id nor link,
/// which `entry_reading` leaves out.
#[verifier::external_body]
fn feed_rs_document(bytes: &[u8]) -> (r: Result<FeedDocument, String>)
    ensures
        match r {
            Ok(d) => feed_rs_reading(bytes@) == Ok::<_, Seq<char>>(document_reading(d)),
            Err(m) => feed_rs_reading(bytes@) == Err::<(
                Option<Seq<char>>,
                Seq<(Option<Seq<char>>, Seq<char>)>,
                Seq<(
                    Option<Seq<char>>,
                    Seq<Seq<char>>,
                    Option<Seq<char>>,
                    Option<Seq<char>>,
                    Option<Seq<char>>,
                    Option<Seq<char>>,
                    Seq<Option<Seq<char>>>,
                )>,
            ), Seq<char>>(m@),
        },
{
    let f = feed_rs::parser::parse(bytes).map_err(|e| e.to_string())?;
    Ok(FeedDocument {
        title: f.title.as_ref().map(|t| t.content.clone()),
        links: f.links.iter().map(|l| FeedLink { rel: l.rel.clone(), href: l.href.clone() }).collect(),
        entries: f.entries.iter().map(feed_rs_item).collect(),
    })
}

/// An entry that feed-rs parsed, as plain values: texts by their content, dates in
/// RFC 3339 (`DateTime::to_rfc3339`). It only converts the parser's values and serves
/// `feed_rs_document`.
#[verifier::external_body]
fn feed_rs_item(e: &FeedRsEntry) -> (r: FeedItem)
{
    FeedItem {
        id: e.id.clone(),
        link_hrefs: e.links.iter().map(|l| l.href.clone()).collect(),
        title: e.title.as_ref().map(|t| t.content.clone()),
        summary: e.summary.as_ref().map(|t| t.content.clone()),
        published: e.published.map(|d| d.to_rfc3339()),
        updated: e.updated.map(|d| d.to_rfc3339()),
        author_names: e.authors.iter().map(|a| a.name.clone()).collect(),
    }
}

/// The site of a feed from its links: the target of the first whose relation is
/// `alternate`.
pub open spec fn reading_site(links: Seq<(Option<Seq<char>>, Seq<char>)>) -> Option<Seq<char>>
    decreases links.len(),
{
    if links.len() == 0 {
        None
    } else if links[0].0 == Some("alternate"@) {
        Some(links[0].1)
    } else {
        reading_site(links.drop_first())
    }
}

/// The entry that is stored for what a feed says of an entry: its id (where it has a
/// link), its first link, title, first author's name, publication date (else update
/// date) and summary.
pub open spec fn stored_from_reading(er: (
    Option<Seq<char>>,
    Seq<Seq<char>>,
    Option<Seq<char>>,
    Option<Seq<char>>,
    Option<Seq<char>>,
    Option<Seq<char>>,
    Seq<Option<Seq<char>>>,
)) -> (Option<Seq<char>>, Option<Seq<char>>, Option<Seq<char>>, Option<Seq<char>>, Option<Seq<char>>, Option<Seq<char>>) {
    (
        er.0,
        if er.1.len() > 0 { Some(er.1[0]) } else { None },
        er.2,
        if er.6.len() > 0 { er.6[0] } else { None },
        match er.4 { Some(p) => Some(p), None => er.5 },
        er.3,
    )
}

/// A stored entry as `stored_from_reading` gives it: its GUID counts only where it has
/// a URL.
pub open spec fn stored_entry(r: RawEntryData) -> (Option<Seq<char>>, Option<Seq<char>>, Option<Seq<char>>, Option<Seq<char>>, Option<Seq<char>>, Option<Seq<char>>) {
    (
        if r.url is Some { Some(r.guid@) } else { None },
        opt_str(r.url),
        opt_str(r.title),
        opt_str(r.author),
        opt_str(r.published_at),
        opt_str(r.summary),
    )
}

/// An entry's stored date is its publication date whenever it has one; its update
/// date stands in only for an entry without a publication date.
pub proof fn stored_date_prefers_publication(e: FeedItem)
    ensures
        e.published matches Some(p) ==> raw_entry_spec(e).4 == Some(p@),
        e.published is None ==> raw_entry_spec(e).4 == opt_str(e.updated),
{
}

/// The same of what feed-rs reads: the stored date of an entry is the publication date
/// the feed gives it, else its update date.
pub proof fn stored_date_prefers_publication_read(er: (
    Option<Seq<char>>,
    Seq<Seq<char>>,
    Option<Seq<char>>,
    Option<Seq<char>>,
    Option<Seq<char>>,
    Option<Seq<char>>,
    Seq<Option<Seq<char>>>,
))
    ensures
        er.4 matches Some(p) ==> stored_from_reading(er).4 == Some(p),
        er.4 is None ==> stored_from_reading(er).4 == er.5,
{
}

proof fn lemma_site_of_reading(links: Seq<FeedLink>)
    ensures
        site_url_spec(links) == reading_site(links.map_values(|l: FeedLink| link_reading(l))),
    decreases links.len(),
{
    if links.len() > 0 {
        assert(links.map_values(|l: FeedLink| link_reading(l)).drop_first()
            =~= links.drop_first().map_values(|l: FeedLink| link_reading(l)));
        lemma_site_of_reading(links.drop_first());
    }
}

/// Parses the bytes of a feed and reads its title, site and entries (see
/// `parsed_feed`) from what feed-rs reads in them; the parser's error, prefixed
/// `Feed parse error: `, when they hold no RSS, Atom or JSON feed. The feed's URL is
/// not used.
pub fn parse_feed_bytes(bytes: &[u8], _feed_url: Option<&str>) -> (r: Result<ParsedFeed, String>)
    ensures
        r is Ok <==> feed_rs_reading(bytes@) is Ok,
        r matches Err(e) ==> feed_rs_reading(bytes@) matches Err(m) && e@ == "Feed parse error: "@ + m,
        r matches Ok(p) ==> feed_rs_reading(bytes@) matches Ok(rd)
            && opt_str(p.title) == rd.0
            && opt_str(p.site_url) == reading_site(rd.1)
            && p.entries@.map_values(|x: RawEntryData| stored_entry(x))
                == rd.2.map_values(|er| stored_from_reading(er)),
{
    match feed_rs_document(bytes) {
        Err(m) => {
            let mut e = "Feed parse error: ".to_string();
            e.append(m.as_str());
            assert(e@ == "Feed parse error: "@ + m@);
            Err(e)
        },
        Ok(doc) => {
            let p = parsed_feed(&doc);
            proof {
                lemma_site_of_reading(doc.links@);
                let raw = p.entries@.map_values(|x: RawEntryData| raw_entry_view(x));
                let spec_raw = doc.entries@.map_values(|e: FeedItem| raw_entry_spec(e));
                let ers = doc.entries@.map_values(|e: FeedItem| entry_reading(e));
                assert(raw == spec_raw);
                assert forall|i: int| 0 <= i < p.entries@.len() implies
                    #[trigger] stored_entry(p.entries@[i]) == stored_from_reading(ers[i]) by {
                    assert(raw[i] == spec_raw[i]);
                    let e = doc.entries@[i];
                    if e.link_hrefs@.len() > 0 {
                        assert(e.link_hrefs@.map_values(|h: String| h@)[0] == e.link_hrefs@[0]@);
                    }
                    if e.author_names@.len() > 0 {
                        assert(e.author_names@.map_values(|a: Option<String>| opt_str(a))[0] == opt_str(e.author_names@[0]));
                    }
                }
                assert(p.entries@.map_values(|x: RawEntryData| stored_entry(x))
                    =~= ers.map_values(|er| stored_from_reading(er)));
            }
            Ok(p)
        },
    }
}

} // verus!
