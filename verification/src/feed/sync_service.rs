//! The results of feed synchronisation: one per feed, an error kept in the result
//! rather than ending the run.
use vstd::prelude::*;
use crate::db::models::SyncResult;

verus! {

/// The result of a sync that stored `new_entries` new and `updated_entries` updated
/// entries.
pub fn synced(feed_id: i64, new_entries: usize, updated_entries: usize) -> (r: SyncResult)
    ensures
        r.feed_id == feed_id,
        r.new_entries == new_entries,
        r.updated_entries == updated_entries,
        r.error is None,
{
    SyncResult { feed_id, new_entries, updated_entries, error: None }
}

/// The result of a sync whose response body was empty: nothing stored, and an error.
pub fn empty_body_result(feed_id: i64) -> (r: SyncResult)
    ensures
        r.feed_id == feed_id,
        r.new_entries == 0,
        r.updated_entries == 0,
        r.error matches Some(e) && e@ == "Empty response body"@,
{
    SyncResult { feed_id, new_entries: 0, updated_entries: 0, error: Some("Empty response body".to_string()) }
}

/// The result recorded for a feed in a sync of all feeds: the sync's own result, or,
/// where it failed, nothing stored and the error.
pub fn sync_outcome(feed_id: i64, outcome: Result<SyncResult, String>) -> (r: SyncResult)
    ensures
        match outcome {
            Ok(s) => r == s,
            Err(e) => r.feed_id == feed_id && r.new_entries == 0 && r.updated_entries == 0
                && r.error == Some(e),
        },
{
    match outcome {
        Ok(s) => s,
        Err(e) => SyncResult { feed_id, new_entries: 0, updated_entries: 0, error: Some(e) },
    }
}

} // verus!
