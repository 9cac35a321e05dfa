//! Tags: how names are normalised, how the tag list is searched, and which links a
//! batch tagging creates.
use vstd::prelude::*;
use crate::db::entry_store::like_pattern;
use crate::db::models::BatchTagResult;
use crate::text::{chars_of, string_of_chars, to_lowercase, trim_chars, trim_spec, unicode_lowercase};

verus! {

/// The name a tag is stored under, and its normalized form: the name without
/// surrounding whitespace, and that in lowercase.
pub fn tag_names(name: &str) -> (r: (String, String))
    ensures
        r.0@ == trim_spec(name@),
        r.1@ == unicode_lowercase(trim_spec(name@)),
{
    let chars = chars_of(name);
    let trimmed = trim_chars(&chars);
    let display = string_of_chars(&trimmed);
    let normalized = to_lowercase(display.as_str());
    (display, normalized)
}

/// The `LIKE` pattern of a tag search: the text anywhere in the name.
pub fn tag_search_pattern(search: Option<&str>) -> (r: Option<String>)
    ensures
        match search {
            Some(q) => r matches Some(p) && p@ == like_pattern(q@),
            None => r is None,
        },
{
    match search {
        Some(q) => {
            let mut p = "%".to_string();
            p.append(q);
            p.append("%");
            proof {
                reveal_strlit("%");
            }
            assert(p@ =~= like_pattern(q@));
            Some(p)
        },
        None => None,
    }
}

/// The (entry, tag) links of a batch tagging: every tag for each entry, entries in
/// order and, for each, the tags in order.
pub open spec fn batch_pairs(entries: Seq<i64>, tags: Seq<i64>) -> Seq<(i64, i64)>
    decreases entries.len(),
{
    if entries.len() == 0 {
        Seq::empty()
    } else {
        batch_pairs(entries.drop_last(), tags) + tags.map_values(|t: i64| (entries.last(), t))
    }
}

/// A batch tagging links every chosen tag to every entry in the range, and makes
/// one link per pair.
pub proof fn lemma_batch_pairs_cover(entries: Seq<i64>, tags: Seq<i64>)
    ensures
        batch_pairs(entries, tags).len() == entries.len() * tags.len(),
        forall|i: int, j: int|
            0 <= i < entries.len() && 0 <= j < tags.len() ==> batch_pairs(entries, tags).contains(
                (#[trigger] entries[i], #[trigger] tags[j]),
            ),
    decreases entries.len(),
{
    if entries.len() > 0 {
        let init = entries.drop_last();
        lemma_batch_pairs_cover(init, tags);
        let last = tags.map_values(|t: i64| (entries.last(), t));
        let all = batch_pairs(entries, tags);
        assert(all == batch_pairs(init, tags) + last);
        assert(all.len() == init.len() * tags.len() + tags.len());
        assert(entries.len() * tags.len() == init.len() * tags.len() + tags.len()) by (nonlinear_arith)
            requires
                entries.len() == init.len() + 1,
        ;
        assert forall|i: int, j: int| 0 <= i < entries.len() && 0 <= j < tags.len() implies all.contains(
            (#[trigger] entries[i], #[trigger] tags[j]),
        ) by {
            if i < init.len() {
                assert(init[i] == entries[i]);
                assert(batch_pairs(init, tags).contains((init[i], tags[j])));
                let k = choose|k: int| 0 <= k < batch_pairs(init, tags).len() && batch_pairs(init, tags)[k] == (init[i], tags[j]);
                assert(all[k] == (entries[i], tags[j]));
            } else {
                let k = batch_pairs(init, tags).len() + j;
                assert(all[k] == last[j]);
            }
        }
    }
}

/// The (entry, tag) links that a batch tagging of `entry_ids` with `tag_ids` makes.
pub fn batch_tag_links(entry_ids: &Vec<i64>, tag_ids: &Vec<i64>) -> (r: Vec<(i64, i64)>)
    ensures
        r@ == batch_pairs(entry_ids@, tag_ids@),
{
    let mut out: Vec<(i64, i64)> = Vec::new();
    for i in 0..entry_ids.len()
        invariant
            out@ == batch_pairs(entry_ids@.take(i as int), tag_ids@),
    {
        let e = entry_ids[i];
        let ghost start = out@;
        for j in 0..tag_ids.len()
            invariant
                e == entry_ids@[i as int],
                out@ == start + tag_ids@.take(j as int).map_values(|t: i64| (e, t)),
        {
            out.push((e, tag_ids[j]));
            assert(out@ =~= start + tag_ids@.take(j + 1).map_values(|t: i64| (e, t)));
        }
        assert(tag_ids@.take(tag_ids.len() as int) =~= tag_ids@);
        assert(entry_ids@.take(i + 1).drop_last() =~= entry_ids@.take(i as int));
        assert(entry_ids@.take(i + 1).last() == e);
    }
    assert(entry_ids@.take(entry_ids.len() as int) =~= entry_ids@);
    out
}

/// The summary of a batch tagging: how many entries were in the range and how many
/// tags were applied to each.
pub fn batch_tag_result(entries_processed: usize, tag_ids: &Vec<i64>) -> (r: BatchTagResult)
    ensures
        r.entries_processed == entries_processed,
        r.tags_assigned == tag_ids.len(),
{
    BatchTagResult { entries_processed, tags_assigned: tag_ids.len() }
}

} // verus!
