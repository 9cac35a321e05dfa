//! Entry queries: the SQL of the paginated, filtered entry list, its bind values, the
//! cursor that continues it, and the statements that mark entries read.
use vstd::prelude::*;
use crate::decimal::{format_i64, format_u64, int_decimal, nat_digits, parse_i64, parse_i64_spec};
use crate::db::models::Entry;
use crate::text::{join_spec, join_strings};

verus! {

/// Filters and page position of an entry listing.
pub struct EntryQueryParams {
    pub feed_id: Option<i64>,
    pub unread_only: bool,
    pub search: Option<String>,
    pub tag_ids: Option<Vec<i64>>,
    pub cursor: Option<i64>,
    pub limit: u32,
}

/// An entry as read from a feed, before it is stored.
#[derive(Debug, Clone)]
pub struct RawEntryData {
    pub guid: String,
    pub url: Option<String>,
    pub title: Option<String>,
    pub author: Option<String>,
    pub published_at: Option<String>,
    pub summary: Option<String>,
}

/// A value bound to a numbered SQL parameter.
#[derive(Debug, Clone, PartialEq, Eq)]
pub enum SqlValue {
    Int(i64),
    Text(String),
}

/// The abstract form of a [`SqlValue`].
pub enum SqlValueView {
    Int(i64),
    Text(Seq<char>),
}

pub open spec fn sql_view(x: SqlValue) -> SqlValueView {
    match x {
        SqlValue::Int(i) => SqlValueView::Int(i),
        SqlValue::Text(t) => SqlValueView::Text(t@),
    }
}

pub open spec fn sql_values_view(v: Seq<SqlValue>) -> Seq<SqlValueView> {
    v.map_values(|x: SqlValue| sql_view(x))
}

/// The statements of one page of an entry listing, with their bind values.
pub struct EntryQuery {
    /// Counts all entries that pass the filters.
    pub count_sql: String,
    /// Selects one page of them, newest first.
    pub query_sql: String,
    /// The values of the parameters of `count_sql`.
    pub count_binds: Vec<SqlValue>,
    /// The values of the parameters of `query_sql`: those of `count_sql`, then the limit.
    pub query_binds: Vec<SqlValue>,
}

/// The numbered parameter `?n`.
pub open spec fn placeholder(n: nat) -> Seq<char> {
    seq!['?'] + nat_digits(n)
}

/// `Some(x)` as a one-element sequence, `None` as the empty one.
pub open spec fn opt_seq<T>(o: Option<T>) -> Seq<T> {
    match o {
        Some(x) => seq![x],
        None => Seq::empty(),
    }
}

/// The tag filter is active when a non-empty list of tags is given.
pub open spec fn tag_filter(p: EntryQueryParams) -> Seq<i64> {
    match p.tag_ids {
        Some(t) => t@,
        None => Seq::empty(),
    }
}

/// Parameters used before the search filter.
pub open spec fn n_before_search(p: EntryQueryParams) -> nat {
    if p.feed_id is Some { 1 } else { 0 }
}

/// Parameters used before the tag filter.
pub open spec fn n_before_tags(p: EntryQueryParams) -> nat {
    n_before_search(p) + if p.search is Some { 2nat } else { 0nat }
}

/// Parameters used before the cursor filter.
pub open spec fn n_before_cursor(p: EntryQueryParams) -> nat {
    n_before_tags(p) + tag_filter(p).len()
}

/// Parameters used by all the filters.
pub open spec fn n_filters(p: EntryQueryParams) -> nat {
    n_before_cursor(p) + if p.cursor is Some { 1nat } else { 0nat }
}

/// The `LIKE` pattern of a search: the query with `%` on both sides.
pub open spec fn like_pattern(q: Seq<char>) -> Seq<char> {
    seq!['%'] + q + seq!['%']
}

/// The conditions of the `WHERE` clause, in order.
pub open spec fn entry_conditions(p: EntryQueryParams) -> Seq<Seq<char>> {
    seq!["e.is_deleted = 0"@]
        + opt_seq(match p.feed_id {
            Some(_) => Some("e.feed_id = "@ + placeholder(1)),
            None => None,
        })
        + opt_seq(if p.unread_only { Some("e.is_read = 0"@) } else { None })
        + opt_seq(match p.search {
            Some(_) => Some(
                "(e.title LIKE "@ + placeholder(n_before_search(p) + 1) + " OR e.summary LIKE "@
                    + placeholder(n_before_search(p) + 2) + ")"@,
            ),
            None => None,
        })
        + opt_seq(if tag_filter(p).len() > 0 {
            Some(
                "e.id IN (SELECT entry_id FROM entry_tag WHERE tag_id IN ("@ + join_spec(
                    Seq::new(tag_filter(p).len(), |i: int| placeholder((n_before_tags(p) + i + 1) as nat)),
                    ","@,
                ) + "))"@,
            )
        } else {
            None
        })
        + opt_seq(match p.cursor {
            Some(_) => Some("e.id < "@ + placeholder(n_before_cursor(p) + 1)),
            None => None,
        })
}

/// The values of the filter parameters, in parameter order.
pub open spec fn entry_binds(p: EntryQueryParams) -> Seq<SqlValueView> {
    opt_seq(match p.feed_id { Some(f) => Some(SqlValueView::Int(f)), None => None })
        + match p.search {
            Some(q) => seq![SqlValueView::Text(like_pattern(q@)), SqlValueView::Text(like_pattern(q@))],
            None => Seq::empty(),
        }
        + tag_filter(p).map_values(|t: i64| SqlValueView::Int(t))
        + opt_seq(match p.cursor { Some(c) => Some(SqlValueView::Int(c)), None => None })
}

pub open spec fn where_clause(p: EntryQueryParams) -> Seq<char> {
    join_spec(entry_conditions(p), " AND "@)
}

pub open spec fn count_sql_spec(p: EntryQueryParams) -> Seq<char> {
    "SELECT COUNT(*) FROM entry e WHERE "@ + where_clause(p)
}

pub open spec fn query_sql_spec(p: EntryQueryParams) -> Seq<char> {
    "SELECT e.id, e.feed_id, e.guid, e.url, e.title, e.author,
                        e.published_at, e.summary, e.is_read, e.is_starred,
                        e.is_deleted, e.created_at
                 FROM entry e
                 WHERE "@ + where_clause(p) + "
                 ORDER BY e.published_at DESC, e.id DESC
                 LIMIT "@ + placeholder(n_filters(p) + 1)
}

/// `?n` for a parameter number.
fn placeholder_text(n: usize) -> (r: String)
    ensures
        r@ == placeholder(n as nat),
{
    let mut r = "?".to_owned();
    let digits = format_u64(n as u64);
    r.append(digits.as_str());
    proof {
        reveal_strlit("?");
    }
    assert(r@ =~= placeholder(n as nat));
    r
}


/// The character sequences of a list of strings.
pub open spec fn strs(v: Seq<String>) -> Seq<Seq<char>> {
    v.map_values(|s: String| s@)
}

/// The tag-filter condition for `k` tags whose parameters follow the first `before`.
fn tag_condition(before: usize, k: usize) -> (r: String)
    requires
        before + k + 1 <= usize::MAX,
    ensures
        r@ == "e.id IN (SELECT entry_id FROM entry_tag WHERE tag_id IN ("@ + join_spec(
            Seq::new(k as nat, |i: int| placeholder((before + i + 1) as nat)),
            ","@,
        ) + "))"@,
{
    let mut holders: Vec<String> = Vec::new();
    let mut i: usize = 0;
    while i < k
        invariant
            i <= k,
            before + k + 1 <= usize::MAX,
            strs(holders@) == Seq::new(i as nat, |j: int| placeholder((before + j + 1) as nat)),
        decreases k - i,
    {
        let ghost prev = holders@;
        let h = placeholder_text(before + i + 1);
        holders.push(h);
        assert(holders@ =~= prev.push(h));
        assert(strs(holders@) =~= strs(prev).push(h@));
        assert(strs(holders@) =~= Seq::new((i + 1) as nat, |j: int| placeholder((before + j + 1) as nat)));
        i += 1;
    }
    let mut r = "e.id IN (SELECT entry_id FROM entry_tag WHERE tag_id IN (".to_owned();
    let joined = join_strings(&holders, ",");
    r.append(joined.as_str());
    r.append("))");
    r
}

/// A copy of a list of bind values.
fn copy_values(v: &Vec<SqlValue>) -> (r: Vec<SqlValue>)
    ensures
        sql_values_view(r@) == sql_values_view(v@),
{
    let mut r: Vec<SqlValue> = Vec::new();
    let mut i: usize = 0;
    while i < v.len()
        invariant
            i <= v.len(),
            sql_values_view(r@) == sql_values_view(v@).take(i as int),
        decreases v.len() - i,
    {
        let ghost prev = r@;
        let x = match &v[i] {
            SqlValue::Int(n) => SqlValue::Int(*n),
            SqlValue::Text(t) => SqlValue::Text(t.clone()),
        };
        assert(sql_view(x) == sql_view(v@[i as int]));
        r.push(x);
        assert(r@ =~= prev.push(x));
        assert(sql_values_view(r@) =~= sql_values_view(prev).push(sql_view(x)));
        assert(sql_values_view(v@).take(i + 1) =~= sql_values_view(v@).take(i as int).push(sql_view(v@[i as int])));
        assert(sql_values_view(r@) =~= sql_values_view(v@).take(i + 1));
        i += 1;
    }
    assert(sql_values_view(v@).take(v.len() as int) =~= sql_values_view(v@));
    r
}

fn push_feed_filter(conds: &mut Vec<String>, binds: &mut Vec<SqlValue>, feed_id: Option<i64>)
    requires
        old(binds).len() == 0,
    ensures
        strs(final(conds)@) == strs(old(conds)@) + opt_seq(match feed_id {
            Some(_) => Some("e.feed_id = "@ + placeholder(1)),
            None => None,
        }),
        sql_values_view(final(binds)@) == opt_seq(match feed_id { Some(f) => Some(SqlValueView::Int(f)), None => None }),
{
    let ghost c0 = conds@;
    if let Some(fid) = feed_id {
        let mut c = "e.feed_id = ".to_owned();
        let h = placeholder_text(1);
        c.append(h.as_str());
        conds.push(c);
        binds.push(SqlValue::Int(fid));
        assert(conds@ =~= c0.push(c));
        assert(strs(conds@) =~= strs(c0).push(c@));
    }
    assert(strs(conds@) =~= strs(c0) + opt_seq(match feed_id {
        Some(_) => Some("e.feed_id = "@ + placeholder(1)),
        None => None,
    }));
    assert(sql_values_view(binds@) =~= opt_seq(match feed_id { Some(f) => Some(SqlValueView::Int(f)), None => None }));
}

fn push_search_filter(conds: &mut Vec<String>, binds: &mut Vec<SqlValue>, search: &Option<String>)
    requires
        old(binds).len() <= 1,
    ensures
        strs(final(conds)@) == strs(old(conds)@) + opt_seq(match search {
            Some(_) => Some(
                "(e.title LIKE "@ + placeholder((old(binds).len() + 1) as nat) + " OR e.summary LIKE "@
                    + placeholder((old(binds).len() + 2) as nat) + ")"@,
            ),
            None => None,
        }),
        sql_values_view(final(binds)@) == sql_values_view(old(binds)@) + match search {
            Some(q) => seq![SqlValueView::Text(like_pattern(q@)), SqlValueView::Text(like_pattern(q@))],
            None => Seq::<SqlValueView>::empty(),
        },
{
    let ghost c0 = conds@;
    let ghost b0 = binds@;
    let n = binds.len();
    if let Some(q) = search {
        let mut c = "(e.title LIKE ".to_owned();
        let h1 = placeholder_text(n + 1);
        c.append(h1.as_str());
        c.append(" OR e.summary LIKE ");
        let h2 = placeholder_text(n + 2);
        c.append(h2.as_str());
        c.append(")");
        conds.push(c);
        assert(conds@ =~= c0.push(c));
        assert(strs(conds@) =~= strs(c0).push(c@));
        let mut like = "%".to_owned();
        like.append(q.as_str());
        like.append("%");
        proof {
            reveal_strlit("%");
        }
        assert(like@ =~= like_pattern(q@));
        let like2 = like.clone();
        binds.push(SqlValue::Text(like));
        binds.push(SqlValue::Text(like2));
        assert(sql_values_view(binds@) =~= sql_values_view(b0) + seq![
            SqlValueView::Text(like_pattern(q@)),
            SqlValueView::Text(like_pattern(q@)),
        ]);
    } else {
        assert(strs(conds@) =~= strs(c0) + Seq::<Seq<char>>::empty());
        assert(sql_values_view(binds@) =~= sql_values_view(b0) + Seq::<SqlValueView>::empty());
    }
}

fn push_tag_filter(conds: &mut Vec<String>, binds: &mut Vec<SqlValue>, tag_ids: &Option<Vec<i64>>)
    requires
        old(binds).len() <= 3,
        match tag_ids { Some(t) => t.len() + 16 <= usize::MAX, None => true },
    ensures
        ({
            let tags = match tag_ids { Some(t) => t@, None => Seq::<i64>::empty() };
            &&& strs(final(conds)@) == strs(old(conds)@) + opt_seq(if tags.len() > 0 {
                Some(
                    "e.id IN (SELECT entry_id FROM entry_tag WHERE tag_id IN ("@ + join_spec(
                        Seq::new(tags.len(), |i: int| placeholder((old(binds).len() + i + 1) as nat)),
                        ","@,
                    ) + "))"@,
                )
            } else {
                None
            })
            &&& sql_values_view(final(binds)@) == sql_values_view(old(binds)@) + tags.map_values(|t: i64| SqlValueView::Int(t))
        }),
{
    let ghost c0 = conds@;
    let ghost b0 = binds@;
    let n = binds.len();
    if let Some(tids) = tag_ids {
        if tids.len() > 0 {
            let c = tag_condition(n, tids.len());
            conds.push(c);
            assert(conds@ =~= c0.push(c));
            assert(strs(conds@) =~= strs(c0).push(c@));
            let mut i: usize = 0;
            while i < tids.len()
                invariant
                    i <= tids.len(),
                    sql_values_view(binds@) == sql_values_view(b0) + tids@.take(i as int).map_values(|t: i64| SqlValueView::Int(t)),
                decreases tids.len() - i,
            {
                let ghost prev = binds@;
                binds.push(SqlValue::Int(tids[i]));
                assert(binds@ =~= prev.push(SqlValue::Int(tids@[i as int])));
                assert(tids@.take(i + 1) =~= tids@.take(i as int).push(tids@[i as int]));
                assert(sql_values_view(binds@) =~= sql_values_view(prev).push(SqlValueView::Int(tids@[i as int])));
                assert(sql_values_view(binds@) =~= sql_values_view(b0) + tids@.take(i + 1).map_values(|t: i64| SqlValueView::Int(t)));
                i += 1;
            }
            assert(tids@.take(tids.len() as int) =~= tids@);
            return;
        }
    }
    assert(strs(conds@) =~= strs(c0) + Seq::<Seq<char>>::empty());
    let ghost tags = match tag_ids { Some(t) => t@, None => Seq::<i64>::empty() };
    assert(tags.map_values(|t: i64| SqlValueView::Int(t)) =~= Seq::<SqlValueView>::empty());
    assert(sql_values_view(binds@) =~= sql_values_view(b0) + Seq::<SqlValueView>::empty());
}

fn push_cursor_filter(conds: &mut Vec<String>, binds: &mut Vec<SqlValue>, cursor: Option<i64>)
    requires
        old(binds).len() + 8 <= usize::MAX,
    ensures
        strs(final(conds)@) == strs(old(conds)@) + opt_seq(match cursor {
            Some(_) => Some("e.id < "@ + placeholder((old(binds).len() + 1) as nat)),
            None => None,
        }),
        sql_values_view(final(binds)@) == sql_values_view(old(binds)@) + opt_seq(match cursor {
            Some(c) => Some(SqlValueView::Int(c)),
            None => None,
        }),
{
    let ghost c0 = conds@;
    let ghost b0 = binds@;
    if let Some(c0v) = cursor {
        let mut c = "e.id < ".to_owned();
        let h = placeholder_text(binds.len() + 1);
        c.append(h.as_str());
        conds.push(c);
        binds.push(SqlValue::Int(c0v));
        assert(conds@ =~= c0.push(c));
        assert(strs(conds@) =~= strs(c0).push(c@));
        assert(binds@ =~= b0.push(SqlValue::Int(c0v)));
        assert(sql_values_view(binds@) =~= sql_values_view(b0).push(SqlValueView::Int(c0v)));
    }
    assert(strs(conds@) =~= strs(c0) + opt_seq(match cursor {
        Some(_) => Some("e.id < "@ + placeholder((b0.len() + 1) as nat)),
        None => None,
    }));
    assert(sql_values_view(binds@) =~= sql_values_view(b0) + opt_seq(match cursor {
        Some(c) => Some(SqlValueView::Int(c)),
        None => None,
    }));
}

/// Builds the statements of one page of an entry listing. Deleted entries are never
/// listed; the filters apply in the order feed, unread, search (title or summary),
/// tags (any of), cursor (ids below it); the page is ordered newest first.
pub fn build_entry_query(params: &EntryQueryParams) -> (r: EntryQuery)
    requires
        tag_filter(*params).len() + 16 <= usize::MAX,
    ensures
        r.count_sql@ == count_sql_spec(*params),
        r.query_sql@ == query_sql_spec(*params),
        sql_values_view(r.count_binds@) == entry_binds(*params),
        sql_values_view(r.query_binds@) == entry_binds(*params).push(SqlValueView::Int(params.limit as i64)),
{
    let ghost p = *params;
    let mut conds: Vec<String> = Vec::new();
    let mut binds: Vec<SqlValue> = Vec::new();
    conds.push("e.is_deleted = 0".to_owned());
    assert(strs(conds@) =~= seq!["e.is_deleted = 0"@]);
    push_feed_filter(&mut conds, &mut binds, params.feed_id);
    assert(sql_values_view(binds@).len() == binds@.len());
    assert(binds.len() == n_before_search(p));
    if params.unread_only {
        let ghost c0 = conds@;
        conds.push("e.is_read = 0".to_owned());
        assert(strs(conds@) =~= strs(c0).push("e.is_read = 0"@));
    }
    push_search_filter(&mut conds, &mut binds, &params.search);
    assert(sql_values_view(binds@).len() == binds@.len());
    assert(binds.len() == n_before_tags(p));
    push_tag_filter(&mut conds, &mut binds, &params.tag_ids);
    assert(sql_values_view(binds@).len() == binds@.len());
    assert(binds.len() == n_before_cursor(p));
    push_cursor_filter(&mut conds, &mut binds, params.cursor);
    assert(sql_values_view(binds@).len() == binds@.len());
    assert(binds.len() == n_filters(p));
    assert(strs(conds@) =~= entry_conditions(p));
    assert(sql_values_view(binds@) =~= entry_binds(p));

    let where_sql = join_strings(&conds, " AND ");
    let mut count_sql = "SELECT COUNT(*) FROM entry e WHERE ".to_owned();
    count_sql.append(where_sql.as_str());

    let mut query_sql = "SELECT e.id, e.feed_id, e.guid, e.url, e.title, e.author,
                        e.published_at, e.summary, e.is_read, e.is_starred,
                        e.is_deleted, e.created_at
                 FROM entry e
                 WHERE ".to_owned();
    query_sql.append(where_sql.as_str());
    query_sql.append("
                 ORDER BY e.published_at DESC, e.id DESC
                 LIMIT ");
    let h = placeholder_text(binds.len() + 1);
    query_sql.append(h.as_str());

    let count_binds = copy_values(&binds);
    let mut query_binds = binds;
    let ghost qb = query_binds@;
    query_binds.push(SqlValue::Int(params.limit as i64));
    assert(query_binds@ =~= qb.push(SqlValue::Int(params.limit as i64)));
    assert(sql_values_view(query_binds@) =~= sql_values_view(qb).push(SqlValueView::Int(params.limit as i64)));
    EntryQuery { count_sql, query_sql, count_binds, query_binds }
}


/// Every numbered parameter of a listing has its value: the filters use the
/// parameters `?1` to `?n` and bind exactly `n` values, and the page size is `?n+1`.
pub proof fn lemma_binds_match_placeholders(p: EntryQueryParams)
    ensures
        entry_binds(p).len() == n_filters(p),
        entry_binds(p).push(SqlValueView::Int(p.limit as i64)).len() == n_filters(p) + 1,
{
}

/// The columns and table a listing page selects, up to its `WHERE`.
pub open spec fn page_select() -> Seq<char> {
    "SELECT e.id, e.feed_id, e.guid, e.url, e.title, e.author,
                        e.published_at, e.summary, e.is_read, e.is_starred,
                        e.is_deleted, e.created_at
                 FROM entry e
                 WHERE "@
}

/// The ordering of a listing page, up to the parameter of its size.
pub open spec fn page_order() -> Seq<char> {
    "
                 ORDER BY e.published_at DESC, e.id DESC
                 LIMIT "@
}

/// A listing page filters exactly as its count: the page query selects with the very
/// conditions of the count query, its size is the parameter after the filters' values,
/// and it binds the count's values, then the page size.
pub proof fn page_filters_as_count(p: EntryQueryParams)
    ensures
        exists|w: Seq<char>|
            count_sql_spec(p) == "SELECT COUNT(*) FROM entry e WHERE "@ + w
                && query_sql_spec(p) == page_select() + w + page_order() + placeholder(entry_binds(p).len() + 1),
{
    assert(count_sql_spec(p) == "SELECT COUNT(*) FROM entry e WHERE "@ + where_clause(p));
    assert(query_sql_spec(p) =~= page_select() + where_clause(p) + page_order() + placeholder(entry_binds(p).len() + 1));
}

/// With a cursor `c`, both queries hold the condition `e.id < ?k` as their last
/// condition, and the `k`-th value both bind is `c`: the next page holds the entries
/// below the cursor.
pub proof fn cursor_filters_both_queries(p: EntryQueryParams, c: i64)
    requires
        p.cursor == Some(c),
    ensures
        ({
            let k = n_before_cursor(p) + 1;
            &&& exists|head: Seq<char>|
                count_sql_spec(p) == head + " AND "@ + "e.id < "@ + placeholder(k)
            &&& exists|head: Seq<char>, tail: Seq<char>|
                query_sql_spec(p) == head + " AND "@ + "e.id < "@ + placeholder(k) + tail
            &&& entry_binds(p)[k - 1] == SqlValueView::Int(c)
            &&& entry_binds(p).push(SqlValueView::Int(p.limit as i64))[k - 1] == SqlValueView::Int(c)
        }),
{
    let k = n_before_cursor(p) + 1;
    let conds = entry_conditions(p);
    let last = "e.id < "@ + placeholder(k);
    assert(conds.len() >= 2);
    assert(conds.last() == last);
    let w0 = join_spec(conds.drop_last(), " AND "@);
    assert(where_clause(p) == w0 + " AND "@ + last);
    let ch = "SELECT COUNT(*) FROM entry e WHERE "@ + w0;
    assert(count_sql_spec(p) =~= ch + " AND "@ + "e.id < "@ + placeholder(k));
    let qh = "SELECT e.id, e.feed_id, e.guid, e.url, e.title, e.author,
                        e.published_at, e.summary, e.is_read, e.is_starred,
                        e.is_deleted, e.created_at
                 FROM entry e
                 WHERE "@ + w0;
    let qt = "
                 ORDER BY e.published_at DESC, e.id DESC
                 LIMIT "@ + placeholder(n_filters(p) + 1);
    assert(query_sql_spec(p) =~= qh + " AND "@ + "e.id < "@ + placeholder(k) + qt);
    let b = entry_binds(p);
    let a = opt_seq(match p.feed_id { Some(f) => Some(SqlValueView::Int(f)), None => None })
        + match p.search {
            Some(q) => seq![SqlValueView::Text(like_pattern(q@)), SqlValueView::Text(like_pattern(q@))],
            None => Seq::empty(),
        }
        + tag_filter(p).map_values(|t: i64| SqlValueView::Int(t));
    assert(a.len() == n_before_cursor(p));
    assert(b == a + seq![SqlValueView::Int(c)]);
    assert(b[k - 1] == SqlValueView::Int(c));
}

/// The cursor that continues a listing after the page `entries`: the id of its last entry.
pub open spec fn next_cursor_spec(entries: Seq<Entry>) -> Option<Seq<char>> {
    if entries.len() > 0 { Some(int_decimal(entries.last().id as int)) } else { None }
}

/// The cursor that continues a listing after the page `entries`.
pub fn next_cursor(entries: &Vec<Entry>) -> (r: Option<String>)
    ensures
        match r {
            Some(c) => next_cursor_spec(entries@) == Some(c@),
            None => next_cursor_spec(entries@) is None,
        },
{
    if entries.len() > 0 {
        Some(format_i64(entries[entries.len() - 1].id))
    } else {
        None
    }
}

/// The entry id a cursor names: the cursor read as a decimal `i64`, if it is one.
pub open spec fn cursor_id_spec(cursor: Option<Seq<char>>) -> Option<i64> {
    match cursor {
        Some(c) => parse_i64_spec(c),
        None => None,
    }
}

/// The listing parameters of a request: unread-only defaults to false, the page size
/// to 50, and a cursor that is not a decimal `i64` is ignored.
pub fn entry_query_params(
    feed_id: Option<i64>,
    unread_only: Option<bool>,
    search: Option<String>,
    tag_ids: Option<Vec<i64>>,
    cursor: Option<String>,
    limit: Option<u32>,
) -> (r: EntryQueryParams)
    ensures
        r.feed_id == feed_id,
        r.unread_only == match unread_only { Some(b) => b, None => false },
        r.search == search,
        r.tag_ids == tag_ids,
        r.cursor == cursor_id_spec(match cursor { Some(c) => Some(c@), None => None }),
        r.limit == match limit { Some(l) => l, None => 50 },
{
    let cursor_id = match &cursor {
        Some(c) => parse_i64(c.as_str()),
        None => None,
    };
    EntryQueryParams {
        feed_id,
        unread_only: match unread_only { Some(b) => b, None => false },
        search,
        tag_ids,
        cursor: cursor_id,
        limit: match limit { Some(l) => l, None => 50 },
    }
}

/// Paging resumes where the last page ended: the cursor that a page yields names the
/// id of its last entry.
pub proof fn lemma_cursor_names_last_entry(entries: Seq<Entry>)
    ensures
        cursor_id_spec(next_cursor_spec(entries)) == if entries.len() > 0 {
            Some(entries.last().id)
        } else {
            None::<i64>
        },
{
    if entries.len() > 0 {
        crate::decimal::lemma_parse_format_i64(entries.last().id);
    }
}

/// The statement that sets the read flag of the entries `ids`: their ids are the
/// parameters `?1` to `?n`, the flag is `?n+1`.
pub open spec fn mark_read_sql_spec(n: nat) -> Seq<char> {
    "UPDATE entry SET is_read = "@ + placeholder(n + 1) + " WHERE id IN ("@
        + join_spec(Seq::new(n, |i: int| placeholder((i + 1) as nat)), ","@) + ")"@
}

/// The statement, with its bind values, that marks the entries `ids` read or unread.
pub fn mark_read_statement(ids: &Vec<i64>, is_read: bool) -> (r: (String, Vec<SqlValue>))
    requires
        ids.len() + 16 <= usize::MAX,
    ensures
        r.0@ == mark_read_sql_spec(ids.len() as nat),
        sql_values_view(r.1@) == ids@.map_values(|t: i64| SqlValueView::Int(t))
            .push(SqlValueView::Int(if is_read { 1 } else { 0 })),
{
    let mut holders: Vec<String> = Vec::new();
    let mut binds: Vec<SqlValue> = Vec::new();
    let mut i: usize = 0;
    while i < ids.len()
        invariant
            i <= ids.len(),
            ids.len() + 16 <= usize::MAX,
            strs(holders@) == Seq::new(i as nat, |j: int| placeholder((j + 1) as nat)),
            sql_values_view(binds@) == ids@.take(i as int).map_values(|t: i64| SqlValueView::Int(t)),
        decreases ids.len() - i,
    {
        let ghost hp = holders@;
        let ghost bp = binds@;
        let h = placeholder_text(i + 1);
        holders.push(h);
        binds.push(SqlValue::Int(ids[i]));
        assert(holders@ =~= hp.push(h));
        assert(strs(holders@) =~= strs(hp).push(h@));
        assert(strs(holders@) =~= Seq::new((i + 1) as nat, |j: int| placeholder((j + 1) as nat)));
        assert(binds@ =~= bp.push(SqlValue::Int(ids@[i as int])));
        assert(sql_values_view(binds@) =~= sql_values_view(bp).push(SqlValueView::Int(ids@[i as int])));
        assert(ids@.take(i + 1) =~= ids@.take(i as int).push(ids@[i as int]));
        assert(sql_values_view(binds@) =~= ids@.take(i + 1).map_values(|t: i64| SqlValueView::Int(t)));
        i += 1;
    }
    assert(ids@.take(ids.len() as int) =~= ids@);
    let mut sql = "UPDATE entry SET is_read = ".to_owned();
    let flag = placeholder_text(ids.len() + 1);
    sql.append(flag.as_str());
    sql.append(" WHERE id IN (");
    let joined = join_strings(&holders, ",");
    sql.append(joined.as_str());
    sql.append(")");
    let ghost bp = binds@;
    binds.push(SqlValue::Int(if is_read { 1 } else { 0 }));
    assert(binds@ =~= bp.push(SqlValue::Int(if is_read { 1 } else { 0 })));
    assert(sql_values_view(binds@) =~= sql_values_view(bp).push(SqlValueView::Int(if is_read { 1 } else { 0 })));
    (sql, binds)
}

/// How an incoming entry is matched against the stored entries of its feed.
#[derive(Debug, Clone, PartialEq, Eq)]
pub enum EntryLookup {
    /// By its GUID, when it has a non-empty one.
    Guid(String),
    /// Else by its URL, when it has one.
    Url(String),
    /// Else it is always new.
    New,
}

/// Decides how an incoming entry is matched against stored ones: by a non-empty
/// GUID, else by its URL, else not at all.
pub fn entry_lookup(e: &RawEntryData) -> (r: EntryLookup)
    ensures
        e.guid@.len() > 0 ==> r == EntryLookup::Guid(e.guid),
        e.guid@.len() == 0 ==> match e.url {
            Some(u) => r == EntryLookup::Url(u),
            None => r == EntryLookup::New,
        },
{
    if !e.guid.as_str().is_empty() {
        EntryLookup::Guid(e.guid.clone())
    } else {
        match &e.url {
            Some(u) => EntryLookup::Url(u.clone()),
            None => EntryLookup::New,
        }
    }
}

/// How many of the incoming entries matched a stored entry.
pub open spec fn count_existing(existing: Seq<Option<i64>>) -> nat
    decreases existing.len(),
{
    if existing.len() == 0 {
        0
    } else {
        count_existing(existing.drop_last()) + if existing.last() is Some { 1nat } else { 0nat }
    }
}

proof fn lemma_count_existing_bound(existing: Seq<Option<i64>>)
    ensures
        count_existing(existing) <= existing.len(),
    decreases existing.len(),
{
    if existing.len() > 0 {
        lemma_count_existing_bound(existing.drop_last());
    }
}

/// The counts of an upsert of a feed's entries, from the stored id each incoming
/// entry matched (`None` when it matched none): entries inserted, entries updated.
/// Every incoming entry is counted once, as new or as updated.
pub fn upsert_counts(existing: &Vec<Option<i64>>) -> (r: (usize, usize))
    ensures
        r.1 == count_existing(existing@),
        r.0 + r.1 == existing.len(),
{
    let mut new_count: usize = 0;
    let mut updated_count: usize = 0;
    for i in 0..existing.len()
        invariant
            updated_count == count_existing(existing@.take(i as int)),
            new_count + updated_count == i,
    {
        proof {
            assert(existing@.take(i + 1).drop_last() =~= existing@.take(i as int));
            lemma_count_existing_bound(existing@.take(i as int));
        }
        if existing[i].is_some() {
            updated_count += 1;
        } else {
            new_count += 1;
        }
    }
    assert(existing@.take(existing.len() as int) =~= existing@);
    (new_count, updated_count)
}

} // verus!
