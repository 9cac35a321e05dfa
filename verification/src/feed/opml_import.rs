//! OPML import: the feeds of an outline tree, folders included.
use vstd::prelude::*;
use crate::db::models::ImportResult;
use crate::feed::opml_export::{opml_document_spec, OpmlFeedData, OpmlFolderData};

verus! {

/// An outline element of an OPML document, with the outlines nested in it.
#[derive(Debug)]
pub struct OpmlOutline {
    pub text: String,
    pub xml_url: Option<String>,
    pub html_url: Option<String>,
    pub outlines: OutlineList,
}

/// A list of outline elements, in document order.
#[derive(Debug)]
pub enum OutlineList {
    Nil,
    Cons(Box<OpmlOutline>, Box<OutlineList>),
}

/// A feed found in an OPML document.
#[derive(Debug, Clone)]
pub struct OpmlImportEntry {
    pub title: String,
    pub feed_url: String,
    pub site_url: Option<String>,
}

pub open spec fn import_entry_view(e: OpmlImportEntry) -> (Seq<char>, Seq<char>, Option<Seq<char>>) {
    (e.title@, e.feed_url@, match e.site_url { Some(u) => Some(u@), None => None })
}

/// The feed an outline names itself: one with a non-empty feed URL.
pub open spec fn own_feed(o: OpmlOutline) -> Seq<(Seq<char>, Seq<char>, Option<Seq<char>>)> {
    match o.xml_url {
        Some(u) => if u@.len() > 0 {
            seq![(o.text@, u@, match o.html_url { Some(h) => Some(h@), None => None })]
        } else {
            Seq::empty()
        },
        None => Seq::empty(),
    }
}

/// The feeds of a list of outlines, depth first in document order: each outline's own
/// feed, then those nested in it.
pub open spec fn outlines_feeds(os: OutlineList) -> Seq<(Seq<char>, Seq<char>, Option<Seq<char>>)>
    decreases os,
{
    match os {
        OutlineList::Nil => Seq::empty(),
        OutlineList::Cons(o, rest) => own_feed(*o) + outlines_feeds(o.outlines) + outlines_feeds(*rest),
    }
}

fn clone_opt(s: &Option<String>) -> (r: Option<String>)
    ensures
        r == *s,
{
    match s {
        Some(x) => Some(x.clone()),
        None => None,
    }
}

/// Appends the feeds of `outlines` to `entries`, recursing into folders.
pub fn collect_feeds(outlines: &OutlineList, entries: &mut Vec<OpmlImportEntry>)
    ensures
        final(entries)@.map_values(|e: OpmlImportEntry| import_entry_view(e))
            == old(entries)@.map_values(|e: OpmlImportEntry| import_entry_view(e)) + outlines_feeds(*outlines),
    decreases outlines,
{
    match outlines {
        OutlineList::Nil => {
            assert(entries@.map_values(|e: OpmlImportEntry| import_entry_view(e))
                =~= old(entries)@.map_values(|e: OpmlImportEntry| import_entry_view(e)) + Seq::empty());
        },
        OutlineList::Cons(outline, rest) => {
            let ghost e0 = entries@;
            if let Some(feed_url) = &outline.xml_url {
                if !feed_url.as_str().is_empty() {
                    let e = OpmlImportEntry {
                        title: outline.text.clone(),
                        feed_url: feed_url.clone(),
                        site_url: clone_opt(&outline.html_url),
                    };
                    entries.push(e);
                    assert(entries@ =~= e0.push(e));
                }
            }
            assert(entries@.map_values(|e: OpmlImportEntry| import_entry_view(e))
                =~= e0.map_values(|e: OpmlImportEntry| import_entry_view(e)) + own_feed(**outline));
            collect_feeds(&outline.outlines, entries);
            collect_feeds(&**rest, entries);
            assert(outlines_feeds(*outlines) =~= own_feed(**outline) + outlines_feeds(outline.outlines) + outlines_feeds(**rest));
        },
    }
}

/// The feeds of an OPML document's body outlines.
pub fn opml_feeds(body: &OutlineList) -> (r: Vec<OpmlImportEntry>)
    ensures
        r@.map_values(|e: OpmlImportEntry| import_entry_view(e)) == outlines_feeds(*body),
{
    let mut entries: Vec<OpmlImportEntry> = Vec::new();
    collect_feeds(body, &mut entries);
    assert(entries@.map_values(|e: OpmlImportEntry| import_entry_view(e)) =~= outlines_feeds(*body));
    entries
}

/// What became of one feed of an imported OPML file.
pub enum FeedImportOutcome {
    /// The feed was already subscribed.
    Skipped,
    /// The feed was added; its first sync failed with the error given, if any.
    Added(Option<String>),
}

/// The errors reported for the feeds whose first sync failed, as `url: error`.
pub open spec fn import_errors(outcomes: Seq<(String, FeedImportOutcome)>) -> Seq<Seq<char>>
    decreases outcomes.len(),
{
    if outcomes.len() == 0 {
        Seq::empty()
    } else {
        let rest = import_errors(outcomes.drop_last());
        match outcomes.last().1 {
            FeedImportOutcome::Added(Some(e)) => rest.push(outcomes.last().0@ + ": "@ + e@),
            _ => rest,
        }
    }
}

/// How many feeds were added.
pub open spec fn import_added(outcomes: Seq<(String, FeedImportOutcome)>) -> nat
    decreases outcomes.len(),
{
    if outcomes.len() == 0 {
        0
    } else {
        import_added(outcomes.drop_last()) + if outcomes.last().1 is Added { 1nat } else { 0nat }
    }
}

proof fn lemma_import_added_bound(outcomes: Seq<(String, FeedImportOutcome)>)
    ensures
        import_added(outcomes) <= outcomes.len(),
    decreases outcomes.len(),
{
    if outcomes.len() > 0 {
        lemma_import_added_bound(outcomes.drop_last());
    }
}

/// The summary of an import from what became of each feed (its URL and outcome):
/// the feeds added, the feeds skipped, and the sync errors in order.
pub fn import_result(outcomes: &Vec<(String, FeedImportOutcome)>) -> (r: ImportResult)
    ensures
        r.feeds_added == import_added(outcomes@),
        r.feeds_added + r.feeds_skipped == outcomes.len(),
        r.errors@.map_values(|s: String| s@) == import_errors(outcomes@),
{
    let mut added: usize = 0;
    let mut skipped: usize = 0;
    let mut errors: Vec<String> = Vec::new();
    for i in 0..outcomes.len()
        invariant
            added == import_added(outcomes@.take(i as int)),
            added + skipped == i,
            errors@.map_values(|s: String| s@) == import_errors(outcomes@.take(i as int)),
    {
        proof {
            assert(outcomes@.take(i + 1).drop_last() =~= outcomes@.take(i as int));
            lemma_import_added_bound(outcomes@.take(i as int));
        }
        let ghost before = errors@;
        match &outcomes[i].1 {
            FeedImportOutcome::Skipped => {
                skipped += 1;
            },
            FeedImportOutcome::Added(sync_error) => {
                added += 1;
                match sync_error {
                    Some(e) => {
                        let mut msg = outcomes[i].0.clone();
                        msg.append(": ");
                        msg.append(e.as_str());
                        errors.push(msg);
                        assert(errors@.map_values(|s: String| s@) =~= before.map_values(|s: String| s@).push(
                            outcomes@[i as int].0@ + ": "@ + e@,
                        ));
                    },
                    None => {},
                }
            },
        }
    }
    assert(outcomes@.take(outcomes.len() as int) =~= outcomes@);
    ImportResult { feeds_added: added, feeds_skipped: skipped, errors }
}

#[verifier::external_type_specification]
#[verifier::external_body]
pub struct ExOpmlOutline(opml::Outline);

/// The outline tree that the `opml` crate reads from an OPML document, or `None`
/// when it refuses the text.
pub uninterp spec fn opml_outline_tree(xml: Seq<char>) -> Option<OutlineList>;

/// `opml::OPML::from_str`: the outlines of the body of the OPML document that `xml`
/// holds (converted by `outline_list`), or the text of the parser's error. The tree is
/// named, not stated: it is the parser's reading of the text.
#[verifier::external_body]
fn parse_opml_outlines(xml: &str) -> (r: Result<OutlineList, String>)
    ensures
        match r {
            Ok(t) => opml_outline_tree(xml@) == Some(t),
            Err(_) => opml_outline_tree(xml@) is None,
        },
{
    opml::OPML::from_str(xml).map(|doc| outline_list(&doc.body.outlines)).map_err(|e| e.to_string())
}

/// The outlines of an OPML document as plain values: text, feed URL, site URL, and
/// the nested outlines, in document order. It only converts the parser's values and
/// serves `parse_opml_outlines`.
#[verifier::external_body]
fn outline_list(outlines: &Vec<opml::Outline>) -> (r: OutlineList)
{
    outlines.iter().rev().fold(OutlineList::Nil, |rest, o| OutlineList::Cons(
        Box::new(OpmlOutline { text: o.text.clone(), xml_url: o.xml_url.clone(), html_url: o.html_url.clone(), outlines: outline_list(&o.outlines) }),
        Box::new(rest),
    ))
}

/// The feeds of an OPML document (see `opml_feeds`): those of the outline tree the
/// parser reads from `xml`; an error, prefixed `OPML parse error: `, when the parser
/// refuses the text.
pub fn parse_opml_text(xml: &str) -> (r: Result<Vec<OpmlImportEntry>, String>)
    ensures
        match r {
            Ok(v) => opml_outline_tree(xml@) matches Some(t)
                && v@.map_values(|e: OpmlImportEntry| import_entry_view(e)) == outlines_feeds(t),
            Err(e) => opml_outline_tree(xml@) is None && exists|m: Seq<char>| e@ == "OPML parse error: "@ + m,
        },
{
    match parse_opml_outlines(xml) {
        Err(m) => {
            let mut e = "OPML parse error: ".to_string();
            e.append(m.as_str());
            assert(e@ == "OPML parse error: "@ + m@);
            Err(e)
        },
        Ok(tree) => Ok(opml_feeds(&tree)),
    }
}

/// The site URL an exported feed is written with: its own, else empty.
pub open spec fn written_site(f: OpmlFeedData) -> Seq<char> {
    match f.site_url {
        Some(u) => u@,
        None => Seq::empty(),
    }
}

/// The feed an importer reads back from the outline of an exported feed.
pub open spec fn read_back(f: OpmlFeedData) -> (Seq<char>, Seq<char>, Option<Seq<char>>) {
    (f.title@, f.feed_url@, Some(written_site(f)))
}

/// Whether an outline is the exported element of feed `f` as read by a parser: its
/// title as text, its feed URL, its site URL, and nothing nested.
pub open spec fn feed_outline_read(o: OpmlOutline, f: OpmlFeedData) -> bool {
    &&& o.text@ == f.title@
    &&& o.xml_url matches Some(u) && u@ == f.feed_url@
    &&& o.html_url matches Some(h) && h@ == written_site(f)
    &&& o.outlines is Nil
}

/// Whether a list of outlines is the exported elements of `feeds`, in order.
pub open spec fn feed_outlines_read(t: OutlineList, feeds: Seq<OpmlFeedData>) -> bool
    decreases feeds.len(),
{
    if feeds.len() == 0 {
        t is Nil
    } else {
        match t {
            OutlineList::Cons(o, rest) => feed_outline_read(*o, feeds[0]) && feed_outlines_read(*rest, feeds.drop_first()),
            OutlineList::Nil => false,
        }
    }
}

/// Whether an outline is the exported element of a folder: its name as text, no feed
/// URL, and the elements of its feeds nested in it.
pub open spec fn folder_outline_read(o: OpmlOutline, d: OpmlFolderData) -> bool {
    &&& o.text@ == d.name@
    &&& o.xml_url is None
    &&& feed_outlines_read(o.outlines, d.feeds@)
}

/// Whether the body of a document is read as the elements that the exporter wrote:
/// those of the feeds outside folders, then those of the folders.
pub open spec fn body_read(t: OutlineList, feeds: Seq<OpmlFeedData>, folders: Seq<OpmlFolderData>) -> bool
    decreases feeds.len() + folders.len(),
{
    if feeds.len() > 0 {
        match t {
            OutlineList::Cons(o, rest) => feed_outline_read(*o, feeds[0]) && body_read(*rest, feeds.drop_first(), folders),
            OutlineList::Nil => false,
        }
    } else if folders.len() > 0 {
        match t {
            OutlineList::Cons(o, rest) => folder_outline_read(*o, folders[0]) && body_read(*rest, feeds, folders.drop_first()),
            OutlineList::Nil => false,
        }
    } else {
        t is Nil
    }
}

/// The feeds read back from exported feeds, in order.
pub open spec fn feeds_read_back(feeds: Seq<OpmlFeedData>) -> Seq<(Seq<char>, Seq<char>, Option<Seq<char>>)>
    decreases feeds.len(),
{
    if feeds.len() == 0 {
        Seq::empty()
    } else {
        seq![read_back(feeds[0])] + feeds_read_back(feeds.drop_first())
    }
}

/// The feeds read back from exported folders, folder by folder.
pub open spec fn folders_read_back(folders: Seq<OpmlFolderData>) -> Seq<(Seq<char>, Seq<char>, Option<Seq<char>>)>
    decreases folders.len(),
{
    if folders.len() == 0 {
        Seq::empty()
    } else {
        feeds_read_back(folders[0].feeds@) + folders_read_back(folders.drop_first())
    }
}

/// Whether every feed, outside folders and in them, has a feed URL.
pub open spec fn all_feed_urls_set(feeds: Seq<OpmlFeedData>, folders: Seq<OpmlFolderData>) -> bool {
    &&& forall|i: int| 0 <= i < feeds.len() ==> (#[trigger] feeds[i]).feed_url@.len() > 0
    &&& forall|i: int, j: int| 0 <= i < folders.len() && 0 <= j < folders[i].feeds@.len()
        ==> (#[trigger] folders[i].feeds@[j]).feed_url@.len() > 0
}

proof fn lemma_feed_outlines_feeds(t: OutlineList, feeds: Seq<OpmlFeedData>)
    requires
        feed_outlines_read(t, feeds),
        forall|i: int| 0 <= i < feeds.len() ==> (#[trigger] feeds[i]).feed_url@.len() > 0,
    ensures
        outlines_feeds(t) == feeds_read_back(feeds),
    decreases feeds.len(),
{
    if feeds.len() > 0 {
        if let OutlineList::Cons(o, rest) = t {
            let tail = feeds.drop_first();
            assert forall|i: int| 0 <= i < tail.len() implies (#[trigger] tail[i]).feed_url@.len() > 0 by {
                assert(tail[i] == feeds[i + 1]);
            }
            lemma_feed_outlines_feeds(*rest, tail);
            assert(feeds[0].feed_url@.len() > 0);
            assert(own_feed(*o) == seq![read_back(feeds[0])]);
            assert(outlines_feeds(o.outlines) == Seq::<(Seq<char>, Seq<char>, Option<Seq<char>>)>::empty());
            assert(outlines_feeds(t) =~= seq![read_back(feeds[0])] + feeds_read_back(tail));
        }
    }
}

/// Export then import: when the OPML parser reads the document that the exporter
/// wrote as the outlines it describes, the importer gives back every exported feed
/// (title, feed URL, and site URL, empty when the feed had none), those outside folders
/// first, then those of each folder in turn.
pub proof fn opml_export_import_round_trip(
    date_created: Seq<char>,
    feeds: Seq<OpmlFeedData>,
    folders: Seq<OpmlFolderData>,
    tree: OutlineList,
)
    requires
        opml_outline_tree(opml_document_spec(date_created, feeds, folders)) == Some(tree),
        body_read(tree, feeds, folders),
        all_feed_urls_set(feeds, folders),
    ensures
        outlines_feeds(tree) == feeds_read_back(feeds) + folders_read_back(folders),
{
    lemma_body_feeds(tree, feeds, folders);
}

proof fn lemma_body_feeds(t: OutlineList, feeds: Seq<OpmlFeedData>, folders: Seq<OpmlFolderData>)
    requires
        body_read(t, feeds, folders),
        all_feed_urls_set(feeds, folders),
    ensures
        outlines_feeds(t) == feeds_read_back(feeds) + folders_read_back(folders),
    decreases feeds.len() + folders.len(),
{
    if feeds.len() > 0 {
        if let OutlineList::Cons(o, rest) = t {
            let tail = feeds.drop_first();
            assert forall|i: int| 0 <= i < tail.len() implies (#[trigger] tail[i]).feed_url@.len() > 0 by {
                assert(tail[i] == feeds[i + 1]);
            }
            lemma_body_feeds(*rest, tail, folders);
            assert(feeds[0].feed_url@.len() > 0);
            assert(own_feed(*o) == seq![read_back(feeds[0])]);
            assert(outlines_feeds(o.outlines) == Seq::<(Seq<char>, Seq<char>, Option<Seq<char>>)>::empty());
            assert(outlines_feeds(t) =~= feeds_read_back(feeds) + folders_read_back(folders));
        }
    } else if folders.len() > 0 {
        if let OutlineList::Cons(o, rest) = t {
            let tail = folders.drop_first();
            assert forall|i: int, j: int| 0 <= i < tail.len() && 0 <= j < tail[i].feeds@.len()
                implies (#[trigger] tail[i].feeds@[j]).feed_url@.len() > 0 by {
                assert(tail[i] == folders[i + 1]);
            }
            lemma_body_feeds(*rest, feeds, tail);
            let inner = folders[0].feeds@;
            assert forall|j: int| 0 <= j < inner.len() implies (#[trigger] inner[j]).feed_url@.len() > 0 by {
                assert(folders[0].feeds@[j] == inner[j]);
            }
            lemma_feed_outlines_feeds(o.outlines, inner);
            assert(own_feed(*o) == Seq::<(Seq<char>, Seq<char>, Option<Seq<char>>)>::empty());
            assert(feeds_read_back(feeds) == Seq::<(Seq<char>, Seq<char>, Option<Seq<char>>)>::empty());
            assert(outlines_feeds(t) =~= feeds_read_back(feeds) + folders_read_back(folders));
        }
    } else {
        assert(outlines_feeds(t) =~= feeds_read_back(feeds) + folders_read_back(folders));
    }
}

} // verus!
