//! Reading tag suggestions out of an LLM reply.
use vstd::prelude::*;
use vstd::utf8::encode_utf8;
use crate::text::{
    CharClass, chars_of, char_is_alphanumeric, char_in_class, copy_chars, ends_with, ends_with_chars,
    remove_class, remove_class_chars, starts_with, starts_with_chars, strip_both, strip_both_chars,
    strip_end, strip_end_chars, strip_start, strip_start_chars, string_of_chars, trim_chars, trim_spec,
    unicode_alphanumeric, byte_len, to_lowercase, unicode_lowercase, string_of, join_spec, join_strings,
    is_quote, is_unicode_whitespace, lemma_remove_class_none, lemma_strip_ends_none,
};
use crate::agent::prompt_templates::TemplateParams;
use crate::agent::provider::UsageInfo;
use crate::agent::summary::text_or_empty;

verus! {

/// The array of strings that `text` holds as a JSON document, if it is one.
pub uninterp spec fn json_string_array(text: Seq<char>) -> Option<Seq<Seq<char>>>;

/// `serde_json::from_str::<Vec<String>>`: the strings of `text` read as a JSON array
/// of strings, or `None` when `text` is not such a document.
#[verifier::external_body]
fn parse_json_string_array(text: &str) -> (r: Option<Vec<String>>)
    ensures
        json_string_array(text@) == match r {
            Some(v) => Some(v@.map_values(|s: String| s@)),
            None => None,
        },
{
    serde_json::from_str::<Vec<String>>(text).ok()
}

/// At most `n` of the results of `f` on the elements of `xs`, in order, keeping those
/// that satisfy `keep`.
pub open spec fn first_kept(
    xs: Seq<Seq<char>>,
    f: spec_fn(Seq<char>) -> Seq<char>,
    keep: spec_fn(Seq<char>) -> bool,
    n: nat,
) -> Seq<Seq<char>>
    decreases xs.len(),
{
    if xs.len() == 0 || n == 0 {
        Seq::empty()
    } else if keep(f(xs[0])) {
        seq![f(xs[0])] + first_kept(xs.drop_first(), f, keep, (n - 1) as nat)
    } else {
        first_kept(xs.drop_first(), f, keep, n)
    }
}

pub proof fn lemma_first_kept_len(
    xs: Seq<Seq<char>>,
    f: spec_fn(Seq<char>) -> Seq<char>,
    keep: spec_fn(Seq<char>) -> bool,
    n: nat,
)
    ensures
        first_kept(xs, f, keep, n).len() <= n,
        forall|i: int| 0 <= i < first_kept(xs, f, keep, n).len() ==> keep(#[trigger] first_kept(xs, f, keep, n)[i]),
    decreases xs.len(),
{
    if xs.len() == 0 || n == 0 {
    } else {
        if keep(f(xs[0])) {
            lemma_first_kept_len(xs.drop_first(), f, keep, (n - 1) as nat);
            let rest = first_kept(xs.drop_first(), f, keep, (n - 1) as nat);
            assert forall|i: int| 0 <= i < first_kept(xs, f, keep, n).len() implies keep(#[trigger] first_kept(xs, f, keep, n)[i]) by {
                if i > 0 {
                    assert(first_kept(xs, f, keep, n)[i] == rest[i - 1]);
                }
            }
        } else {
            lemma_first_kept_len(xs.drop_first(), f, keep, n);
        }
    }
}

/// The most tags taken from one reply.
pub open spec fn max_tags() -> nat {
    8
}

/// Tags longer than this many bytes are dropped.
pub open spec fn max_tag_bytes() -> nat {
    50
}

/// A candidate from a JSON array: trimmed, without surrounding quotes, without leading
/// `[`/`(` and trailing `]`/`)`, with all quote marks removed, trimmed again.
pub open spec fn clean_tag_spec(s: Seq<char>) -> Seq<char> {
    trim_spec(
        remove_class(
            strip_end(
                strip_start(strip_both(trim_spec(s), CharClass::Quote), CharClass::OpenOrSpace),
                CharClass::CloseOrSpace,
            ),
            CharClass::Quote,
        ),
    )
}

/// A candidate from a JSON array is kept when it is non-empty and at most 50 bytes long.
pub open spec fn keep_json_tag(t: Seq<char>) -> bool {
    t.len() > 0 && encode_utf8(t).len() <= max_tag_bytes()
}

/// The tags read from a JSON array of strings, if the reply held one: the first eight
/// that are kept once cleaned.
pub open spec fn array_tags(array: Option<Seq<Seq<char>>>) -> Seq<Seq<char>> {
    match array {
        Some(a) => first_kept(a, |s: Seq<char>| clean_tag_spec(s), |t: Seq<char>| keep_json_tag(t), max_tags()),
        None => Seq::empty(),
    }
}

/// The tags read from `text` as a JSON array of strings.
pub open spec fn json_tags(text: Seq<char>) -> Seq<Seq<char>> {
    array_tags(json_string_array(text))
}

/// The tags of a reply, given what it held when read as a JSON array of strings
/// (`direct`), what its bracketed part held (`embedded`), what that part held once
/// repaired (`repaired`), and its text without fence (`inner`): the first of the three
/// readings that gives tags, else the plain-text tags of `inner`.
pub open spec fn tags_from_readings(
    direct: Option<Seq<Seq<char>>>,
    embedded: Option<Seq<Seq<char>>>,
    repaired: Option<Seq<Seq<char>>>,
    inner: Seq<char>,
) -> Seq<Seq<char>> {
    if array_tags(direct).len() > 0 {
        array_tags(direct)
    } else if array_tags(embedded).len() > 0 {
        array_tags(embedded)
    } else if array_tags(repaired).len() > 0 {
        array_tags(repaired)
    } else {
        plain_tags(inner)
    }
}

/// Three backticks, which open and close a code fence.
pub open spec fn fence() -> Seq<char> {
    seq!['`', '`', '`']
}

/// The opening of a JSON code fence.
pub open spec fn fence_json() -> Seq<char> {
    seq!['`', '`', '`', 'j', 's', 'o', 'n']
}

/// The text inside a markdown code fence that wraps the whole (trimmed) reply;
/// the reply itself when it is not so wrapped.
pub open spec fn fence_inner(t: Seq<char>) -> Seq<char> {
    if starts_with(t, fence()) {
        let a = if starts_with(t, fence_json()) { t.skip(7) } else { t.skip(3) };
        if ends_with(a, fence()) { trim_spec(a.take(a.len() - 3)) } else { t }
    } else {
        t
    }
}

/// The first position of `c` in `s`.
pub open spec fn first_index_of(s: Seq<char>, c: char) -> Option<int>
    decreases s.len(),
{
    if s.len() == 0 {
        None
    } else if s[0] == c {
        Some(0)
    } else {
        match first_index_of(s.drop_first(), c) {
            Some(i) => Some(i + 1),
            None => None,
        }
    }
}

/// The last position of `c` in `s`.
pub open spec fn last_index_of(s: Seq<char>, c: char) -> Option<int>
    decreases s.len(),
{
    if s.len() == 0 {
        None
    } else if s.last() == c {
        Some(s.len() - 1)
    } else {
        last_index_of(s.drop_last(), c)
    }
}

/// The span from the first `[` to the last `]` of `s`, when the first comes before the last.
pub open spec fn bracket_span(s: Seq<char>) -> Option<(int, int)> {
    match (first_index_of(s, '['), last_index_of(s, ']')) {
        (Some(a), Some(b)) => if a < b { Some((a, b)) } else { None },
        _ => None,
    }
}

/// A JSON array cut short: the span without its closing `]`, closed by `"]`.
pub open spec fn repaired_array(slice: Seq<char>) -> Seq<char> {
    slice.drop_last() + seq!['"', ']']
}

/// The number of ASCII digits at the start of `s`.
pub open spec fn leading_digits(s: Seq<char>) -> nat
    decreases s.len(),
{
    if s.len() > 0 && '0' <= s[0] && s[0] <= '9' {
        1 + leading_digits(s.drop_first())
    } else {
        0
    }
}

/// `s` without a leading number marker such as `1. ` or `12) `.
pub open spec fn strip_number_prefix_spec(s: Seq<char>) -> Seq<char> {
    let i = leading_digits(s);
    if 0 < i && i < s.len() {
        let rest = s.skip(i as int);
        if rest.len() >= 2 && (rest[0] == '.' || rest[0] == ')') && rest[1] == ' ' {
            rest.skip(2)
        } else {
            s
        }
    } else {
        s
    }
}

/// `s` without a leading bullet marker: `- `, `* `, `• ` or `+ `.
pub open spec fn strip_bullet(s: Seq<char>) -> Seq<char> {
    if s.len() >= 2 && s[1] == ' ' && (s[0] == '-' || s[0] == '*' || s[0] == '•' || s[0] == '+') {
        s.skip(2)
    } else {
        s
    }
}

/// Whether `c` separates candidates in a plain-text reply.
pub open spec fn is_separator(c: char) -> bool {
    c == ',' || c == '\n'
}

/// The pieces of `s` between separators (`str::split` on `,` and newline).
pub open spec fn split_pieces(s: Seq<char>) -> Seq<Seq<char>>
    decreases s.len(),
{
    if s.len() == 0 {
        seq![Seq::empty()]
    } else {
        let init = split_pieces(s.drop_last());
        if is_separator(s.last()) {
            init.push(Seq::empty())
        } else {
            init.update(init.len() - 1, init.last().push(s.last()))
        }
    }
}

pub proof fn lemma_split_pieces_nonempty(s: Seq<char>)
    ensures
        split_pieces(s).len() >= 1,
    decreases s.len(),
{
    if s.len() > 0 {
        lemma_split_pieces_nonempty(s.drop_last());
    }
}

/// A candidate from a plain-text reply: trimmed, without bullet and number markers,
/// without surrounding quotes and brackets, with all quote marks removed, trimmed again.
pub open spec fn clean_plain_tag(p: Seq<char>) -> Seq<char> {
    trim_spec(
        remove_class(
            strip_both(strip_number_prefix_spec(strip_bullet(trim_spec(p))), CharClass::QuoteOrBracket),
            CharClass::Quote,
        ),
    )
}

/// Whether every character of `t` is `-`, `*` or `#`.
pub open spec fn only_rule_marks(t: Seq<char>) -> bool {
    forall|i: int| 0 <= i < t.len() ==> (t[i] == '-' || t[i] == '*' || t[i] == '#')
}

/// A plain-text candidate is kept when it is non-empty, at most 50 bytes long, does not
/// start a code fence, holds a letter or digit, and is not a rule of `-`, `*` or `#`.
pub open spec fn keep_plain_tag(t: Seq<char>) -> bool {
    &&& t.len() > 0
    &&& encode_utf8(t).len() <= max_tag_bytes()
    &&& !starts_with(t, fence())
    &&& exists|i: int| 0 <= i < t.len() && unicode_alphanumeric(#[trigger] t[i])
    &&& !only_rule_marks(t)
}

/// The tags read from a plain-text reply.
pub open spec fn plain_tags(inner: Seq<char>) -> Seq<Seq<char>> {
    first_kept(split_pieces(inner), |p: Seq<char>| clean_plain_tag(p), |t: Seq<char>| keep_plain_tag(t), max_tags())
}

/// The tags of an LLM reply: a JSON array of strings, else a JSON array embedded in the
/// text (repaired when cut short), else comma- or newline-separated plain text.
pub open spec fn parse_tags_spec(raw: Seq<char>) -> Seq<Seq<char>> {
    let inner = fence_inner(trim_spec(raw));
    let direct = json_tags(inner);
    if direct.len() > 0 {
        direct
    } else {
        match bracket_span(inner) {
            Some((a, b)) => {
                let slice = inner.subrange(a, b + 1);
                let embedded = json_tags(slice);
                if embedded.len() > 0 {
                    embedded
                } else {
                    let repaired = json_tags(repaired_array(slice));
                    if repaired.len() > 0 { repaired } else { plain_tags(inner) }
                }
            },
            None => plain_tags(inner),
        }
    }
}


/// The character sequences held by a vector of character vectors.
pub open spec fn seqs_of(v: Seq<Vec<char>>) -> Seq<Seq<char>> {
    v.map_values(|x: Vec<char>| x@)
}

/// The character sequences held by a vector of strings.
pub open spec fn strings_view(v: Seq<String>) -> Seq<Seq<char>> {
    v.map_values(|x: String| x@)
}

/// The character sequences held by an optional vector of strings.
pub open spec fn opt_strings(v: Option<Vec<String>>) -> Option<Seq<Seq<char>>> {
    match v {
        Some(v) => Some(strings_view(v@)),
        None => None,
    }
}

fn clean_tag(s: &Vec<char>) -> (r: Vec<char>)
    ensures
        r@ == clean_tag_spec(s@),
{
    let t = trim_chars(s);
    let t = strip_both_chars(&t, CharClass::Quote);
    let t = strip_start_chars(&t, CharClass::OpenOrSpace);
    let t = strip_end_chars(&t, CharClass::CloseOrSpace);
    let t = remove_class_chars(&t, CharClass::Quote);
    trim_chars(&t)
}

/// The number of UTF-8 bytes of the characters of `v`.
fn chars_byte_len(v: &Vec<char>) -> (n: usize)
    ensures
        n == encode_utf8(v@).len(),
{
    let s = string_of_chars(v);
    byte_len(s.as_str())
}

fn keep_json(t: &Vec<char>) -> (b: bool)
    ensures
        b == keep_json_tag(t@),
{
    t.len() > 0 && chars_byte_len(t) <= 50
}

/// The tags read from a JSON array of strings, if there is one.
fn array_tags_of(parsed: &Option<Vec<String>>) -> (r: Vec<Vec<char>>)
    ensures
        seqs_of(r@) == array_tags(opt_strings(*parsed)),
{
    let mut out: Vec<Vec<char>> = Vec::new();
    match parsed {
        None => {
            assert(seqs_of(out@) =~= Seq::<Seq<char>>::empty());
            out
        },
        Some(arr) => {
            let ghost xs = arr@.map_values(|s: String| s@);
            let ghost f = |s: Seq<char>| clean_tag_spec(s);
            let ghost keep = |t: Seq<char>| keep_json_tag(t);
            assert(xs.skip(0) =~= xs);
            assert(seqs_of(out@) =~= Seq::<Seq<char>>::empty());
            let mut i: usize = 0;
            while i < arr.len() && out.len() < 8
                invariant
                    i <= arr.len(),
                    out.len() <= 8,
                    xs == arr@.map_values(|s: String| s@),
                    f == (|s: Seq<char>| clean_tag_spec(s)),
                    keep == (|t: Seq<char>| keep_json_tag(t)),
                    array_tags(opt_strings(*parsed)) == first_kept(xs, f, keep, 8),
                    seqs_of(out@) + first_kept(xs.skip(i as int), f, keep, (8 - out.len()) as nat)
                        == first_kept(xs, f, keep, 8),
                decreases arr.len() - i,
            {
                let ghost before = seqs_of(out@);
                let item = chars_of(arr[i].as_str());
                assert(xs.skip(i as int)[0] == item@);
                assert(xs.skip(i as int).drop_first() =~= xs.skip(i + 1));
                let t = clean_tag(&item);
                if keep_json(&t) {
                    out.push(t);
                    assert(seqs_of(out@) =~= before + seq![t@]);
                } else {
                    assert(seqs_of(out@) =~= before);
                }
                i += 1;
            }
            proof {
                if i >= arr.len() {
                    assert(xs.skip(i as int).len() == 0);
                }
            }
            assert(seqs_of(out@) + Seq::<Seq<char>>::empty() =~= seqs_of(out@));
            out
        },
    }
}


fn fence_inner_of(t: &Vec<char>) -> (r: Vec<char>)
    ensures
        r@ == fence_inner(t@),
{
    let f: Vec<char> = vec!['`', '`', '`'];
    let fj: Vec<char> = vec!['`', '`', '`', 'j', 's', 'o', 'n'];
    assert(f@ =~= fence());
    assert(fj@ =~= fence_json());
    if !starts_with_chars(t, &f) {
        return copy_chars(t, 0, t.len());
    }
    let skip: usize = if starts_with_chars(t, &fj) { 7 } else { 3 };
    let a = copy_chars(t, skip, t.len());
    assert(a@ =~= t@.skip(skip as int));
    if ends_with_chars(&a, &f) {
        let body = copy_chars(&a, 0, a.len() - 3);
        assert(body@ =~= a@.take(a.len() - 3));
        trim_chars(&body)
    } else {
        let r = copy_chars(t, 0, t.len());
        assert(r@ =~= t@);
        r
    }
}

fn first_index(s: &Vec<char>, c: char) -> (r: Option<usize>)
    ensures
        match r {
            Some(i) => first_index_of(s@, c) == Some(i as int),
            None => first_index_of(s@, c) is None,
        },
{
    let mut i: usize = 0;
    while i < s.len()
        invariant
            i <= s.len(),
            forall|j: int| 0 <= j < i ==> s@[j] != c,
        decreases s.len() - i,
    {
        if s[i] == c {
            proof {
                lemma_first_index_of(s@, c, i as int);
            }
            return Some(i);
        }
        i += 1;
    }
    proof {
        lemma_first_index_of_none(s@, c);
    }
    None
}

proof fn lemma_first_index_of(s: Seq<char>, c: char, i: int)
    requires
        0 <= i < s.len(),
        s[i] == c,
        forall|j: int| 0 <= j < i ==> s[j] != c,
    ensures
        first_index_of(s, c) == Some(i),
    decreases i,
{
    if i > 0 {
        lemma_first_index_of(s.drop_first(), c, i - 1);
    }
}

proof fn lemma_first_index_of_none(s: Seq<char>, c: char)
    requires
        forall|j: int| 0 <= j < s.len() ==> s[j] != c,
    ensures
        first_index_of(s, c) is None,
    decreases s.len(),
{
    if s.len() > 0 {
        lemma_first_index_of_none(s.drop_first(), c);
    }
}

fn last_index(s: &Vec<char>, c: char) -> (r: Option<usize>)
    ensures
        match r {
            Some(i) => last_index_of(s@, c) == Some(i as int),
            None => last_index_of(s@, c) is None,
        },
{
    let mut j: usize = s.len();
    assert(s@.take(j as int) =~= s@);
    while j > 0
        invariant
            j <= s.len(),
            last_index_of(s@, c) == last_index_of(s@.take(j as int), c),
        decreases j,
    {
        assert(s@.take(j as int).drop_last() =~= s@.take(j - 1));
        if s[j - 1] == c {
            return Some(j - 1);
        }
        j -= 1;
    }
    None
}

proof fn lemma_first_index_bound(s: Seq<char>, c: char)
    ensures
        first_index_of(s, c) matches Some(i) ==> 0 <= i < s.len(),
    decreases s.len(),
{
    if s.len() > 0 {
        lemma_first_index_bound(s.drop_first(), c);
    }
}

proof fn lemma_last_index_bound(s: Seq<char>, c: char)
    ensures
        last_index_of(s, c) matches Some(i) ==> 0 <= i < s.len(),
    decreases s.len(),
{
    if s.len() > 0 {
        lemma_last_index_bound(s.drop_last(), c);
    }
}

fn leading_digit_count(s: &Vec<char>) -> (n: usize)
    ensures
        n == leading_digits(s@),
        n <= s.len(),
{
    let mut i: usize = 0;
    assert(s@.skip(0) =~= s@);
    while i < s.len() && '0' <= s[i] && s[i] <= '9'
        invariant
            i <= s.len(),
            leading_digits(s@) == i + leading_digits(s@.skip(i as int)),
        decreases s.len() - i,
    {
        assert(s@.skip(i as int).drop_first() =~= s@.skip(i + 1));
        i += 1;
    }
    i
}

fn strip_number_prefix_chars(s: &Vec<char>) -> (r: Vec<char>)
    ensures
        r@ == strip_number_prefix_spec(s@),
{
    let i = leading_digit_count(s);
    if 0 < i && i < s.len() {
        let rest = copy_chars(s, i, s.len());
        assert(rest@ =~= s@.skip(i as int));
        if rest.len() >= 2 && (rest[0] == '.' || rest[0] == ')') && rest[1] == ' ' {
            let r = copy_chars(&rest, 2, rest.len());
            assert(r@ =~= rest@.skip(2));
            return r;
        }
    }
    let r = copy_chars(s, 0, s.len());
    assert(r@ =~= s@);
    r
}

/// Strips a leading number marker such as `1. ` or `1) `.
pub fn strip_number_prefix(s: &str) -> (r: String)
    ensures
        r@ == strip_number_prefix_spec(s@),
{
    let c = chars_of(s);
    let r = strip_number_prefix_chars(&c);
    string_of_chars(&r)
}

fn strip_bullet_chars(s: &Vec<char>) -> (r: Vec<char>)
    ensures
        r@ == strip_bullet(s@),
{
    if s.len() >= 2 && s[1] == ' ' && (s[0] == '-' || s[0] == '*' || s[0] == '•' || s[0] == '+') {
        let r = copy_chars(s, 2, s.len());
        assert(r@ =~= s@.skip(2));
        r
    } else {
        let r = copy_chars(s, 0, s.len());
        assert(r@ =~= s@);
        r
    }
}

fn clean_plain(p: &Vec<char>) -> (r: Vec<char>)
    ensures
        r@ == clean_plain_tag(p@),
{
    let t = trim_chars(p);
    let t = strip_bullet_chars(&t);
    let t = strip_number_prefix_chars(&t);
    let t = strip_both_chars(&t, CharClass::QuoteOrBracket);
    let t = remove_class_chars(&t, CharClass::Quote);
    trim_chars(&t)
}

fn keep_plain(t: &Vec<char>) -> (b: bool)
    ensures
        b == keep_plain_tag(t@),
{
    if t.len() == 0 || chars_byte_len(t) > 50 {
        return false;
    }
    let f: Vec<char> = vec!['`', '`', '`'];
    assert(f@ =~= fence());
    if starts_with_chars(t, &f) {
        return false;
    }
    let mut any_alnum = false;
    let mut all_marks = true;
    let mut i: usize = 0;
    while i < t.len()
        invariant
            i <= t.len(),
            any_alnum == exists|j: int| 0 <= j < i && unicode_alphanumeric(#[trigger] t@[j]),
            all_marks == forall|j: int| 0 <= j < i ==> (t@[j] == '-' || t@[j] == '*' || t@[j] == '#'),
        decreases t.len() - i,
    {
        let c = t[i];
        if char_is_alphanumeric(c) {
            any_alnum = true;
        }
        if !(c == '-' || c == '*' || c == '#') {
            all_marks = false;
        }
        i += 1;
    }
    any_alnum && !all_marks
}

fn split_pieces_of(s: &Vec<char>) -> (r: Vec<Vec<char>>)
    ensures
        seqs_of(r@) == split_pieces(s@),
{
    let mut done: Vec<Vec<char>> = Vec::new();
    let mut cur: Vec<char> = Vec::new();
    let mut i: usize = 0;
    assert(s@.take(0) =~= Seq::<char>::empty());
    assert(seqs_of(done@).push(cur@) =~= split_pieces(s@.take(0)));
    while i < s.len()
        invariant
            i <= s.len(),
            seqs_of(done@).push(cur@) == split_pieces(s@.take(i as int)),
        decreases s.len() - i,
    {
        let ghost prev = split_pieces(s@.take(i as int));
        assert(s@.take(i + 1).drop_last() =~= s@.take(i as int));
        assert(s@.take(i + 1).last() == s@[i as int]);
        if s[i] == ',' || s[i] == '\n' {
            let piece = cur;
            done.push(piece);
            cur = Vec::new();
            assert(seqs_of(done@).push(cur@) =~= prev.push(Seq::empty()));
        } else {
            cur.push(s[i]);
            assert(seqs_of(done@).push(cur@) =~= prev.update(prev.len() - 1, prev.last().push(s@[i as int])));
        }
        i += 1;
    }
    assert(s@.take(s.len() as int) =~= s@);
    done.push(cur);
    done
}

/// The tags read from a plain-text reply.
fn plain_tags_of(inner: &Vec<char>) -> (r: Vec<Vec<char>>)
    ensures
        seqs_of(r@) == plain_tags(inner@),
{
    let pieces = split_pieces_of(inner);
    let ghost xs = seqs_of(pieces@);
    let ghost f = |p: Seq<char>| clean_plain_tag(p);
    let ghost keep = |t: Seq<char>| keep_plain_tag(t);
    let mut out: Vec<Vec<char>> = Vec::new();
    assert(xs.skip(0) =~= xs);
    assert(seqs_of(out@) =~= Seq::<Seq<char>>::empty());
    let mut i: usize = 0;
    while i < pieces.len() && out.len() < 8
        invariant
            i <= pieces.len(),
            out.len() <= 8,
            xs == seqs_of(pieces@),
            f == (|p: Seq<char>| clean_plain_tag(p)),
            keep == (|t: Seq<char>| keep_plain_tag(t)),
            plain_tags(inner@) == first_kept(xs, f, keep, 8),
            seqs_of(out@) + first_kept(xs.skip(i as int), f, keep, (8 - out.len()) as nat)
                == first_kept(xs, f, keep, 8),
        decreases pieces.len() - i,
    {
        let ghost before = seqs_of(out@);
        assert(xs.skip(i as int)[0] == pieces@[i as int]@);
        assert(xs.skip(i as int).drop_first() =~= xs.skip(i + 1));
        let t = clean_plain(&pieces[i]);
        if keep_plain(&t) {
            out.push(t);
            assert(seqs_of(out@) =~= before + seq![t@]);
        } else {
            assert(seqs_of(out@) =~= before);
        }
        i += 1;
    }
    proof {
        if i >= pieces.len() {
            assert(xs.skip(i as int).len() == 0);
        }
    }
    assert(seqs_of(out@) + Seq::<Seq<char>>::empty() =~= seqs_of(out@));
    out
}

/// The tags of a reply from its readings as JSON (see `tags_from_readings`): the
/// readings are those that `serde_json` gave of the reply, of its bracketed part and
/// of that part repaired; `inner` is the reply without its code fence.
pub fn tags_from_json_readings(
    direct: &Option<Vec<String>>,
    embedded: &Option<Vec<String>>,
    repaired: &Option<Vec<String>>,
    inner: &str,
) -> (r: Vec<String>)
    ensures
        strings_view(r@) == tags_from_readings(opt_strings(*direct), opt_strings(*embedded), opt_strings(*repaired), inner@),
{
    let from_direct = array_tags_of(direct);
    let chosen = if from_direct.len() > 0 {
        from_direct
    } else {
        let from_embedded = array_tags_of(embedded);
        if from_embedded.len() > 0 {
            from_embedded
        } else {
            let from_repaired = array_tags_of(repaired);
            if from_repaired.len() > 0 {
                from_repaired
            } else {
                plain_tags_of(&chars_of(inner))
            }
        }
    };
    let mut out: Vec<String> = Vec::new();
    let mut i: usize = 0;
    while i < chosen.len()
        invariant
            i <= chosen.len(),
            strings_view(out@) == seqs_of(chosen@).take(i as int),
        decreases chosen.len() - i,
    {
        let ghost prev = out@;
        let t = string_of_chars(&chosen[i]);
        out.push(t);
        assert(out@ =~= prev.push(t));
        assert(strings_view(out@) =~= strings_view(prev).push(t@));
        assert(seqs_of(chosen@).take(i + 1) =~= seqs_of(chosen@).take(i as int).push(chosen@[i as int]@));
        assert(strings_view(out@) =~= seqs_of(chosen@).take(i + 1));
        i += 1;
    }
    assert(seqs_of(chosen@).take(chosen.len() as int) =~= seqs_of(chosen@));
    out
}

/// Parses tag names from an LLM reply. Tries a JSON array first, then a JSON array
/// embedded in surrounding text (repairing one that was cut short), and falls back to
/// comma- or newline-separated plain text, stripping bullets, numbering, quotes and
/// markdown fences. At most eight tags of at most 50 bytes each are returned.
pub fn parse_tag_response(raw: &str) -> (r: Vec<String>)
    ensures
        strings_view(r@) == parse_tags_spec(raw@),
{
    let raw_chars = chars_of(raw);
    let trimmed = trim_chars(&raw_chars);
    let inner = fence_inner_of(&trimmed);
    let inner_text = string_of_chars(&inner);
    let direct = parse_json_string_array(inner_text.as_str());
    let open = first_index(&inner, '[');
    let close = last_index(&inner, ']');
    proof {
        lemma_first_index_bound(inner@, '[');
        lemma_last_index_bound(inner@, ']');
    }
    let (embedded, repaired) = match (open, close) {
        (Some(a), Some(b)) if a < b => {
            assert(last_index_of(inner@, ']') == Some(b as int));
            let slice = copy_chars(&inner, a, b + 1);
            let mut fixed = copy_chars(&slice, 0, slice.len() - 1);
            assert(fixed@ =~= slice@.drop_last());
            fixed.push('"');
            fixed.push(']');
            assert(fixed@ =~= repaired_array(slice@));
            let slice_text = string_of_chars(&slice);
            let fixed_text = string_of_chars(&fixed);
            (parse_json_string_array(slice_text.as_str()), parse_json_string_array(fixed_text.as_str()))
        },
        _ => (None, None),
    };
    tags_from_json_readings(&direct, &embedded, &repaired, inner_text.as_str())
}

/// The tags with every tag dropped whose lowercase form equals that of an earlier tag.
pub open spec fn dedup_by_lowercase(tags: Seq<Seq<char>>) -> Seq<Seq<char>>
    decreases tags.len(),
{
    if tags.len() == 0 {
        Seq::empty()
    } else {
        let d = dedup_by_lowercase(tags.drop_last());
        if exists|j: int| 0 <= j < tags.len() - 1 && #[trigger] unicode_lowercase(tags[j]) == unicode_lowercase(tags.last()) {
            d
        } else {
            d.push(tags.last())
        }
    }
}

/// Every tag kept by the deduplication is one of the input tags.
pub proof fn lemma_dedup_members(tags: Seq<Seq<char>>)
    ensures
        forall|k: int| 0 <= k < dedup_by_lowercase(tags).len() ==> exists|j: int|
            0 <= j < tags.len() && #[trigger] dedup_by_lowercase(tags)[k] == tags[j],
    decreases tags.len(),
{
    if tags.len() > 0 {
        let init = tags.drop_last();
        lemma_dedup_members(init);
        let d0 = dedup_by_lowercase(init);
        let d = dedup_by_lowercase(tags);
        assert forall|k: int| 0 <= k < d.len() implies exists|j: int| 0 <= j < tags.len() && #[trigger] d[k] == tags[j] by {
            if k < d0.len() {
                let j = choose|j: int| 0 <= j < init.len() && d0[k] == init[j];
                assert(d[k] == d0[k]);
                assert(tags[j] == init[j]);
            } else {
                assert(d[k] == tags[tags.len() - 1]);
            }
        }
    }
}

/// No two tags left by the deduplication share a lowercase form.
pub proof fn lemma_dedup_distinct(tags: Seq<Seq<char>>)
    ensures
        forall|i: int, j: int|
            0 <= i < j < dedup_by_lowercase(tags).len() ==> unicode_lowercase(
                #[trigger] dedup_by_lowercase(tags)[i],
            ) != unicode_lowercase(#[trigger] dedup_by_lowercase(tags)[j]),
    decreases tags.len(),
{
    if tags.len() > 0 {
        let init = tags.drop_last();
        lemma_dedup_distinct(init);
        lemma_dedup_members(init);
        let d0 = dedup_by_lowercase(init);
        let d = dedup_by_lowercase(tags);
        assert forall|i: int, j: int| 0 <= i < j < d.len() implies unicode_lowercase(#[trigger] d[i]) != unicode_lowercase(
            #[trigger] d[j],
        ) by {
            if j < d0.len() {
                assert(d[i] == d0[i] && d[j] == d0[j]);
            } else {
                assert(d[i] == d0[i]);
                let jj = choose|jj: int| 0 <= jj < init.len() && d0[i] == init[jj];
                assert(tags[jj] == init[jj]);
                if unicode_lowercase(d[i]) == unicode_lowercase(d[j]) {
                    assert(d[j] == tags.last());
                    assert(unicode_lowercase(tags[jj]) == unicode_lowercase(tags.last()));
                    assert(false);
                }
            }
        }
    }
}

/// Removes tags that share a lowercase form with an earlier tag, keeping the first.
pub fn dedup_tags(tags: Vec<String>) -> (r: Vec<String>)
    ensures
        strings_view(r@) == dedup_by_lowercase(strings_view(tags@)),
{
    let ghost xs = strings_view(tags@);
    let mut seen: Vec<String> = Vec::new();
    let mut out: Vec<String> = Vec::new();
    let mut i: usize = 0;
    assert(xs.take(0) =~= Seq::<Seq<char>>::empty());
    while i < tags.len()
        invariant
            i <= tags.len(),
            xs == strings_view(tags@),
            seen.len() == i,
            forall|k: int| 0 <= k < i ==> (#[trigger] seen@[k])@ == unicode_lowercase(xs[k]),
            strings_view(out@) == dedup_by_lowercase(xs.take(i as int)),
        decreases tags.len() - i,
    {
        let ghost prev = out@;
        let lower = to_lowercase(tags[i].as_str());
        let mut dup = false;
        let mut k: usize = 0;
        while k < seen.len()
            invariant
                k <= seen.len(),
                seen.len() == i,
                i < tags.len(),
                xs == strings_view(tags@),
                lower@ == unicode_lowercase(xs[i as int]),
                forall|m: int| 0 <= m < i ==> (#[trigger] seen@[m])@ == unicode_lowercase(xs[m]),
                dup == exists|m: int| 0 <= m < k && #[trigger] unicode_lowercase(xs[m]) == unicode_lowercase(xs[i as int]),
            decreases seen.len() - k,
        {
            if seen[k] == lower {
                dup = true;
            }
            k += 1;
        }
        let ghost t = xs.take(i + 1);
        assert(t.drop_last() =~= xs.take(i as int));
        assert(t.last() == xs[i as int]);
        assert forall|j: int| 0 <= j < t.len() - 1 implies #[trigger] t[j] == xs[j] by {}
        proof {
            if dup {
                let m = choose|m: int| 0 <= m < i && #[trigger] unicode_lowercase(xs[m]) == unicode_lowercase(xs[i as int]);
                assert(t[m] == xs[m]);
                assert(unicode_lowercase(t[m]) == unicode_lowercase(t.last()));
            } else {
                assert forall|j: int| 0 <= j < t.len() - 1 implies !(#[trigger] unicode_lowercase(t[j]) == unicode_lowercase(t.last())) by {
                    assert(t[j] == xs[j]);
                }
            }
        }
        if !dup {
            let ghost v = tags[i as int];
            out.push(tags[i].clone());
            assert(strings_view(out@) =~= strings_view(prev).push(xs[i as int]));
        } else {
            assert(strings_view(out@) =~= strings_view(prev));
        }
        seen.push(lower);
        i += 1;
    }
    assert(xs.take(tags.len() as int) =~= xs);
    out
}

/// What a tagging run reports, given the last reply it received (empty if none) and
/// the error of the last failed attempt.
pub open spec fn tagging_outcome_spec(raw: Seq<char>, last_error: Option<Seq<char>>) -> Result<Seq<Seq<char>>, Seq<char>> {
    let tags = dedup_by_lowercase(parse_tags_spec(raw));
    if tags.len() > 0 {
        Ok(tags)
    } else if trim_spec(raw).len() == 0 {
        match last_error {
            Some(e) => Err("Tagging failed after 3 attempts: "@ + e),
            None => Err("DeepSeek returned empty responses after 3 retries. Please try again."@),
        }
    } else {
        Err("Failed to parse tags from LLM response. Raw output:\n"@ + raw.take(
            if raw.len() < 500 { raw.len() as int } else { 500 },
        ))
    }
}

/// Turns the reply of a tagging run into its result: the deduplicated tags, or an
/// error that says why there are none.
pub fn tagging_outcome(raw: &str, last_error: Option<String>) -> (r: Result<Vec<String>, String>)
    ensures
        match r {
            Ok(v) => tagging_outcome_spec(raw@, match last_error { Some(e) => Some(e@), None => None })
                == Ok::<Seq<Seq<char>>, Seq<char>>(strings_view(v@)),
            Err(e) => tagging_outcome_spec(raw@, match last_error { Some(e) => Some(e@), None => None })
                == Err::<Seq<Seq<char>>, Seq<char>>(e@),
        },
{
    let tags = dedup_tags(parse_tag_response(raw));
    if tags.len() > 0 {
        return Ok(tags);
    }
    let raw_chars = chars_of(raw);
    let trimmed = trim_chars(&raw_chars);
    if trimmed.len() == 0 {
        match last_error {
            Some(err) => {
                let mut msg = "Tagging failed after 3 attempts: ".to_owned();
                msg.append(err.as_str());
                Err(msg)
            },
            None => Err("DeepSeek returned empty responses after 3 retries. Please try again.".to_owned()),
        }
    } else {
        let n = if raw_chars.len() < 500 { raw_chars.len() } else { 500 };
        let preview = string_of(&raw_chars, 0, n);
        assert(raw_chars@.subrange(0, n as int) =~= raw@.take(n as int));
        let mut msg = "Failed to parse tags from LLM response. Raw output:\n".to_owned();
        msg.append(preview.as_str());
        Err(msg)
    }
}

/// A parsed reply holds at most eight tags, each non-empty and at most 50 bytes long.
pub proof fn lemma_parsed_tags_bounded(raw: Seq<char>)
    ensures
        parse_tags_spec(raw).len() <= max_tags(),
        forall|i: int| 0 <= i < parse_tags_spec(raw).len() ==> {
            let t = #[trigger] parse_tags_spec(raw)[i];
            t.len() > 0 && encode_utf8(t).len() <= max_tag_bytes()
        },
{
    let inner = fence_inner(trim_spec(raw));
    let fj = |s: Seq<char>| clean_tag_spec(s);
    let kj = |t: Seq<char>| keep_json_tag(t);
    let fp = |p: Seq<char>| clean_plain_tag(p);
    let kp = |t: Seq<char>| keep_plain_tag(t);
    assert forall|text: Seq<char>| #![auto]
        json_tags(text).len() <= max_tags() && forall|i: int| 0 <= i < json_tags(text).len()
            ==> keep_json_tag(#[trigger] json_tags(text)[i]) by {
        if let Some(a) = json_string_array(text) {
            lemma_first_kept_len(a, fj, kj, max_tags());
        }
    }
    lemma_first_kept_len(split_pieces(inner), fp, kp, max_tags());
}

/// The parameters of the tagging prompt: the entry's title and author (empty when
/// absent), its Markdown, and the names of the existing tags, one per line.
pub fn tagging_params(
    title: Option<String>,
    author: Option<String>,
    content: &str,
    existing_tags: &Vec<String>,
) -> (p: TemplateParams)
    ensures
        p@ == Map::<Seq<char>, Seq<char>>::empty()
            .insert("title"@, text_or_empty(title))
            .insert("byline"@, text_or_empty(author))
            .insert("content"@, content@)
            .insert("existing_tags"@, join_spec(existing_tags@.map_values(|s: String| s@), "\n"@)),
{
    let mut p = TemplateParams::new();
    let t = match title {
        Some(t) => t,
        None => String::new(),
    };
    p.insert("title".to_string(), t);
    let a = match author {
        Some(a) => a,
        None => String::new(),
    };
    p.insert("byline".to_string(), a);
    p.insert("content".to_string(), content.to_string());
    p.insert("existing_tags".to_string(), join_strings(existing_tags, "\n"));
    p
}

/// The number of requests a tagging run makes at most.
pub const MAX_TAGGING_ATTEMPTS: u32 = 3;

/// What one tagging request gave: a reply with its usage, or an error.
pub enum AttemptResult {
    Reply { content: String, usage: Option<UsageInfo> },
    Failed(String),
}

/// What the run does after a request.
#[derive(Debug, PartialEq, Eq, Structural)]
pub enum RetryAction {
    /// Pause, then send the request again.
    RetryAfterPause,
    /// Stop asking: the reply is in, or the attempts are used up.
    Stop,
}

/// The state of the requests of a tagging run: how many were made, the reply kept,
/// the usage of that reply, and the last error seen.
pub struct TaggingRetry {
    pub attempts: u32,
    pub raw: String,
    pub last_usage: Option<UsageInfo>,
    pub last_error: Option<String>,
    pub finished: bool,
}

impl TaggingRetry {
    /// No request made yet.
    pub fn new() -> (r: Self)
        ensures
            r.attempts == 0,
            r.raw@ == Seq::<char>::empty(),
            r.last_usage is None,
            r.last_error is None,
            !r.finished,
    {
        TaggingRetry { attempts: 0, raw: String::new(), last_usage: None, last_error: None, finished: false }
    }

    /// Records what a request gave. A reply that holds more than whitespace is kept,
    /// with its usage, and ends the run; an empty reply or an error is remembered, and
    /// the run goes on, after a pause, until three requests were made.
    pub fn record(&mut self, result: AttemptResult) -> (action: RetryAction)
        requires
            !old(self).finished,
            old(self).attempts < MAX_TAGGING_ATTEMPTS,
        ensures
            final(self).attempts == old(self).attempts + 1,
            match result {
                AttemptResult::Reply { content, usage } => if trim_spec(content@).len() > 0 {
                    &&& final(self).raw@ == content@
                    &&& final(self).last_usage == usage
                    &&& final(self).last_error is None
                    &&& final(self).finished
                } else {
                    &&& final(self).raw@ == old(self).raw@
                    &&& final(self).last_usage == old(self).last_usage
                    &&& (final(self).last_error matches Some(e) && e@ == "Empty response from LLM"@)
                    &&& final(self).finished == (final(self).attempts == MAX_TAGGING_ATTEMPTS)
                },
                AttemptResult::Failed(e) => {
                    &&& final(self).raw@ == old(self).raw@
                    &&& final(self).last_usage == old(self).last_usage
                    &&& (final(self).last_error matches Some(x) && x@ == e@)
                    &&& final(self).finished == (final(self).attempts == MAX_TAGGING_ATTEMPTS)
                },
            },
            action == (if final(self).finished { RetryAction::Stop } else { RetryAction::RetryAfterPause }),
    {
        self.attempts = self.attempts + 1;
        match result {
            AttemptResult::Reply { content, usage } => {
                let chars = chars_of(content.as_str());
                let trimmed = trim_chars(&chars);
                if trimmed.len() > 0 {
                    self.raw = content;
                    self.last_usage = usage;
                    self.last_error = None;
                    self.finished = true;
                } else {
                    self.last_error = Some("Empty response from LLM".to_string());
                    self.finished = self.attempts == MAX_TAGGING_ATTEMPTS;
                }
            },
            AttemptResult::Failed(e) => {
                self.last_error = Some(e);
                self.finished = self.attempts == MAX_TAGGING_ATTEMPTS;
            },
        }
        if self.finished {
            RetryAction::Stop
        } else {
            RetryAction::RetryAfterPause
        }
    }
}

/// A tag as a JSON array should hold it: non-empty, without quote marks, neither
/// beginning with white space, `[` or `(` nor ending with white space, `]` or `)`.
pub open spec fn well_formed_tag(t: Seq<char>) -> bool {
    &&& t.len() > 0
    &&& forall|i: int| 0 <= i < t.len() ==> !is_quote(#[trigger] t[i])
    &&& !is_unicode_whitespace(t[0]) && t[0] != '[' && t[0] != '('
    &&& !is_unicode_whitespace(t.last()) && t.last() != ']' && t.last() != ')'
}

/// Cleaning keeps a well-formed tag as it is, inner white space included: it only
/// removes surrounding white space, quotes and brackets, and quote marks.
pub proof fn clean_keeps_well_formed_tags(t: Seq<char>)
    requires
        well_formed_tag(t),
    ensures
        clean_tag_spec(t) == t,
{
    assert(!is_quote(t[0]));
    assert(!is_quote(t[t.len() - 1]));
    lemma_strip_ends_none(t, CharClass::Space, CharClass::Space);
    lemma_strip_ends_none(t, CharClass::Quote, CharClass::Quote);
    lemma_strip_ends_none(t, CharClass::OpenOrSpace, CharClass::CloseOrSpace);
    lemma_remove_class_none(t, CharClass::Quote);
}

/// A JSON array of at most eight well-formed tags of at most 50 bytes each gives
/// exactly those tags, in order.
pub proof fn array_of_well_formed_tags_is_kept(a: Seq<Seq<char>>)
    requires
        a.len() <= max_tags(),
        forall|i: int| 0 <= i < a.len() ==> well_formed_tag(#[trigger] a[i]) && encode_utf8(a[i]).len() <= max_tag_bytes(),
    ensures
        array_tags(Some(a)) == a,
{
    lemma_first_kept_all(a, max_tags());
}

proof fn lemma_first_kept_all(a: Seq<Seq<char>>, n: nat)
    requires
        a.len() <= n,
        forall|i: int| 0 <= i < a.len() ==> well_formed_tag(#[trigger] a[i]) && encode_utf8(a[i]).len() <= max_tag_bytes(),
    ensures
        first_kept(a, |s: Seq<char>| clean_tag_spec(s), |t: Seq<char>| keep_json_tag(t), n) == a,
    decreases a.len(),
{
    if a.len() > 0 {
        let tail = a.drop_first();
        assert forall|i: int| 0 <= i < tail.len() implies well_formed_tag(#[trigger] tail[i]) && encode_utf8(tail[i]).len() <= max_tag_bytes() by {
            assert(tail[i] == a[i + 1]);
        }
        lemma_first_kept_all(tail, (n - 1) as nat);
        assert(well_formed_tag(a[0]));
        clean_keeps_well_formed_tags(a[0]);
        assert(seq![a[0]] + tail =~= a);
    } else {
        assert(a =~= Seq::<Seq<char>>::empty());
    }
}

/// A reply that is, once trimmed and out of its code fence, a JSON array of one to
/// eight well-formed tags of at most 50 bytes each gives exactly those tags, in order.
pub proof fn json_reply_gives_its_tags(raw: Seq<char>, a: Seq<Seq<char>>)
    requires
        json_string_array(fence_inner(trim_spec(raw))) == Some(a),
        0 < a.len() <= max_tags(),
        forall|i: int| 0 <= i < a.len() ==> well_formed_tag(#[trigger] a[i]) && encode_utf8(a[i]).len() <= max_tag_bytes(),
    ensures
        parse_tags_spec(raw) == a,
{
    array_of_well_formed_tags_is_kept(a);
}

} // verus!
