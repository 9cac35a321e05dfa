//! Character-level text utilities shared by the parsers and renderers.
use vstd::prelude::*;
use vstd::utf8::encode_utf8;

verus! {

/// Appends one character to a string (`String::push`).
#[verifier::external_body]
pub(crate) fn push_char(s: &mut String, c: char)
    ensures
        final(s)@ == old(s)@.push(c),
{
    s.push(c);
}

/// The characters of `s`, in order.
pub fn chars_of(s: &str) -> (v: Vec<char>)
    ensures
        v@ == s@,
{
    let mut v: Vec<char> = Vec::new();
    for c in it: s.chars()
        invariant
            v@ == it.seq().take(it.index() as int),
            it.seq() == s@,
    {
        v.push(c);
    }
    v
}

/// The string made of `v[lo..hi]`.
pub fn string_of(v: &Vec<char>, lo: usize, hi: usize) -> (s: String)
    requires
        lo <= hi <= v.len(),
    ensures
        s@ == v@.subrange(lo as int, hi as int),
{
    let mut s = String::new();
    let mut i = lo;
    while i < hi
        invariant
            lo <= i <= hi <= v.len(),
            s@ == v@.subrange(lo as int, i as int),
        decreases hi - i,
    {
        push_char(&mut s, v[i]);
        assert(v@.subrange(lo as int, i + 1) == v@.subrange(lo as int, i as int).push(v@[i as int]));
        i += 1;
    }
    s
}


/// Whether two strings hold the same characters.
pub fn str_eq(a: &str, b: &str) -> (r: bool)
    ensures
        r == (a@ == b@),
{
    a.to_owned() == b.to_owned()
}

/// The number of bytes of the UTF-8 encoding of `s`.
pub fn byte_len(s: &str) -> (n: usize)
    ensures
        n == encode_utf8(s@).len(),
{
    s.as_bytes().len()
}

/// The characters that have the Unicode `White_Space` property.
pub open spec fn is_unicode_whitespace(c: char) -> bool {
    let u = c as u32;
    ||| 0x09 <= u <= 0x0D
    ||| u == 0x20
    ||| u == 0x85
    ||| u == 0xA0
    ||| u == 0x1680
    ||| 0x2000 <= u <= 0x200A
    ||| u == 0x2028
    ||| u == 0x2029
    ||| u == 0x202F
    ||| u == 0x205F
    ||| u == 0x3000
}

/// Whether `c` has the Unicode `White_Space` property, as `char::is_whitespace` tells.
pub(crate) fn char_is_whitespace(c: char) -> (b: bool)
    ensures
        b == is_unicode_whitespace(c),
{
    let u = c as u32;
    (0x09 <= u && u <= 0x0D) || u == 0x20 || u == 0x85 || u == 0xA0 || u == 0x1680
        || (0x2000 <= u && u <= 0x200A) || u == 0x2028 || u == 0x2029 || u == 0x202F
        || u == 0x205F || u == 0x3000
}

/// Sets of characters that the parsers strip or remove.
#[derive(Clone, Copy, Debug, PartialEq, Eq)]
pub enum CharClass {
    /// Unicode white space.
    Space,
    /// `"`, `'` and a backtick.
    Quote,
    /// `[`, `(` and white space.
    OpenOrSpace,
    /// `]`, `)` and white space.
    CloseOrSpace,
    /// Quotes, `[` and `]`.
    QuoteOrBracket,
}

pub open spec fn is_quote(c: char) -> bool {
    c == '"' || c == '\'' || c == '`'
}

/// Whether `c` belongs to the class `cls`.
pub open spec fn in_class(cls: CharClass, c: char) -> bool {
    match cls {
        CharClass::Space => is_unicode_whitespace(c),
        CharClass::Quote => is_quote(c),
        CharClass::OpenOrSpace => c == '[' || c == '(' || is_unicode_whitespace(c),
        CharClass::CloseOrSpace => c == ']' || c == ')' || is_unicode_whitespace(c),
        CharClass::QuoteOrBracket => is_quote(c) || c == '[' || c == ']',
    }
}

pub fn char_in_class(cls: CharClass, c: char) -> (b: bool)
    ensures
        b == in_class(cls, c),
{
    match cls {
        CharClass::Space => char_is_whitespace(c),
        CharClass::Quote => c == '"' || c == '\'' || c == '`',
        CharClass::OpenOrSpace => c == '[' || c == '(' || char_is_whitespace(c),
        CharClass::CloseOrSpace => c == ']' || c == ')' || char_is_whitespace(c),
        CharClass::QuoteOrBracket => c == '"' || c == '\'' || c == '`' || c == '[' || c == ']',
    }
}

/// `s` without its leading characters of class `cls`.
pub open spec fn strip_start(s: Seq<char>, cls: CharClass) -> Seq<char>
    decreases s.len(),
{
    if s.len() > 0 && in_class(cls, s[0]) {
        strip_start(s.drop_first(), cls)
    } else {
        s
    }
}

/// `s` without its trailing characters of class `cls`.
pub open spec fn strip_end(s: Seq<char>, cls: CharClass) -> Seq<char>
    decreases s.len(),
{
    if s.len() > 0 && in_class(cls, s.last()) {
        strip_end(s.drop_last(), cls)
    } else {
        s
    }
}

/// `s` without leading and trailing characters of class `cls`.
pub open spec fn strip_both(s: Seq<char>, cls: CharClass) -> Seq<char> {
    strip_end(strip_start(s, cls), cls)
}

/// `s` without leading and trailing white space (`str::trim`).
pub open spec fn trim_spec(s: Seq<char>) -> Seq<char> {
    strip_both(s, CharClass::Space)
}

/// `s` with every character of class `cls` removed.
pub open spec fn remove_class(s: Seq<char>, cls: CharClass) -> Seq<char>
    decreases s.len(),
{
    if s.len() == 0 {
        s
    } else if in_class(cls, s.last()) {
        remove_class(s.drop_last(), cls)
    } else {
        remove_class(s.drop_last(), cls).push(s.last())
    }
}

/// The characters of `v` without leading characters of class `cls`.
pub fn strip_start_chars(v: &Vec<char>, cls: CharClass) -> (r: Vec<char>)
    ensures
        r@ == strip_start(v@, cls),
{
    let mut i: usize = 0;
    assert(v@.skip(0) =~= v@);
    while i < v.len() && char_in_class(cls, v[i])
        invariant
            i <= v.len(),
            strip_start(v@, cls) == strip_start(v@.skip(i as int), cls),
        decreases v.len() - i,
    {
        assert(v@.skip(i as int).drop_first() =~= v@.skip(i + 1));
        i += 1;
    }
    let r = copy_chars(v, i, v.len());
    assert(r@ =~= v@.skip(i as int));
    r
}

/// The characters of `v` without trailing characters of class `cls`.
pub fn strip_end_chars(v: &Vec<char>, cls: CharClass) -> (r: Vec<char>)
    ensures
        r@ == strip_end(v@, cls),
{
    let mut j: usize = v.len();
    assert(v@.take(j as int) =~= v@);
    while j > 0 && char_in_class(cls, v[j - 1])
        invariant
            j <= v.len(),
            strip_end(v@, cls) == strip_end(v@.take(j as int), cls),
        decreases j,
    {
        assert(v@.take(j as int).drop_last() =~= v@.take(j - 1));
        j -= 1;
    }
    let r = copy_chars(v, 0, j);
    assert(r@ =~= v@.take(j as int));
    r
}

/// The characters of `v` without leading and trailing characters of class `cls`.
pub fn strip_both_chars(v: &Vec<char>, cls: CharClass) -> (r: Vec<char>)
    ensures
        r@ == strip_both(v@, cls),
{
    let a = strip_start_chars(v, cls);
    strip_end_chars(&a, cls)
}

/// The characters of `v` without leading and trailing white space.
pub fn trim_chars(v: &Vec<char>) -> (r: Vec<char>)
    ensures
        r@ == trim_spec(v@),
{
    strip_both_chars(v, CharClass::Space)
}

/// The characters of `v` with every character of class `cls` removed.
pub fn remove_class_chars(v: &Vec<char>, cls: CharClass) -> (r: Vec<char>)
    ensures
        r@ == remove_class(v@, cls),
{
    let mut r: Vec<char> = Vec::new();
    let mut i: usize = 0;
    while i < v.len()
        invariant
            i <= v.len(),
            r@ == remove_class(v@.take(i as int), cls),
        decreases v.len() - i,
    {
        assert(v@.take(i + 1).drop_last() =~= v@.take(i as int));
        if !char_in_class(cls, v[i]) {
            r.push(v[i]);
        }
        i += 1;
    }
    assert(v@.take(v.len() as int) =~= v@);
    r
}

/// A copy of `v[lo..hi]`.
pub fn copy_chars(v: &Vec<char>, lo: usize, hi: usize) -> (r: Vec<char>)
    requires
        lo <= hi <= v.len(),
    ensures
        r@ == v@.subrange(lo as int, hi as int),
{
    let mut r: Vec<char> = Vec::new();
    let mut i = lo;
    while i < hi
        invariant
            lo <= i <= hi <= v.len(),
            r@ == v@.subrange(lo as int, i as int),
        decreases hi - i,
    {
        r.push(v[i]);
        assert(v@.subrange(lo as int, i + 1) =~= v@.subrange(lo as int, i as int).push(v@[i as int]));
        i += 1;
    }
    r
}

/// The string made of all the characters of `v`.
pub fn string_of_chars(v: &Vec<char>) -> (s: String)
    ensures
        s@ == v@,
{
    let s = string_of(v, 0, v.len());
    assert(v@.subrange(0, v.len() as int) =~= v@);
    s
}


/// Whether `c` is alphabetic or numeric in the sense of Unicode (`char::is_alphanumeric`).
pub uninterp spec fn unicode_alphanumeric(c: char) -> bool;

/// ASCII letters and digits.
pub open spec fn is_ascii_alphanumeric(c: char) -> bool {
    ('a' <= c && c <= 'z') || ('A' <= c && c <= 'Z') || ('0' <= c && c <= '9')
}

/// `char::is_alphanumeric`: whether `c` has the Unicode `Alphabetic` property or is
/// numeric. Its contract states the answer on ASCII characters only; on the others it
/// is the named property.
#[verifier::external_body]
pub(crate) fn char_is_alphanumeric(c: char) -> (b: bool)
    ensures
        b == unicode_alphanumeric(c),
        (c as u32) < 128 ==> (b == is_ascii_alphanumeric(c)),
{
    c.is_alphanumeric()
}

/// The Unicode lowercase mapping of a string (`str::to_lowercase`).
pub uninterp spec fn unicode_lowercase(s: Seq<char>) -> Seq<char>;

/// `str::to_lowercase`: the lowercase form of `s` by the Unicode case mapping.
#[verifier::external_body]
pub(crate) fn to_lowercase(s: &str) -> (r: String)
    ensures
        r@ == unicode_lowercase(s@),
{
    s.to_lowercase()
}

/// Whether `s` begins with `p`.
pub open spec fn starts_with(s: Seq<char>, p: Seq<char>) -> bool {
    s.len() >= p.len() && s.take(p.len() as int) == p
}

/// Whether `s` ends with `p`.
pub open spec fn ends_with(s: Seq<char>, p: Seq<char>) -> bool {
    s.len() >= p.len() && s.skip(s.len() - p.len()) == p
}

/// Whether `v` begins with `p`.
pub fn starts_with_chars(v: &Vec<char>, p: &Vec<char>) -> (b: bool)
    ensures
        b == starts_with(v@, p@),
{
    if v.len() < p.len() {
        return false;
    }
    let mut i: usize = 0;
    while i < p.len()
        invariant
            p.len() <= v.len(),
            i <= p.len(),
            forall|t: int| 0 <= t < i ==> v@[t] == p@[t],
        decreases p.len() - i,
    {
        if v[i] != p[i] {
            assert(v@.take(p.len() as int)[i as int] != p@[i as int]);
            return false;
        }
        i += 1;
    }
    assert(v@.take(p.len() as int) =~= p@);
    true
}

/// Whether `v` ends with `p`.
pub fn ends_with_chars(v: &Vec<char>, p: &Vec<char>) -> (b: bool)
    ensures
        b == ends_with(v@, p@),
{
    if v.len() < p.len() {
        return false;
    }
    let off = v.len() - p.len();
    let mut i: usize = 0;
    while i < p.len()
        invariant
            p.len() <= v.len(),
            off == v.len() - p.len(),
            i <= p.len(),
            forall|t: int| 0 <= t < i ==> v@[off + t] == p@[t],
        decreases p.len() - i,
    {
        if v[off + i] != p[i] {
            assert(v@.skip(off as int)[i as int] != p@[i as int]);
            return false;
        }
        i += 1;
    }
    assert(v@.skip(off as int) =~= p@);
    true
}


/// The parts joined with `sep` between each two (`[String]::join`).
pub open spec fn join_spec(parts: Seq<Seq<char>>, sep: Seq<char>) -> Seq<char>
    decreases parts.len(),
{
    if parts.len() == 0 {
        Seq::empty()
    } else if parts.len() == 1 {
        parts[0]
    } else {
        join_spec(parts.drop_last(), sep) + sep + parts.last()
    }
}

/// The strings joined with `sep` between each two.
pub fn join_strings(parts: &Vec<String>, sep: &str) -> (r: String)
    ensures
        r@ == join_spec(parts@.map_values(|s: String| s@), sep@),
{
    let ghost xs = parts@.map_values(|s: String| s@);
    let mut r = String::new();
    let mut i: usize = 0;
    assert(xs.take(0) =~= Seq::<Seq<char>>::empty());
    while i < parts.len()
        invariant
            i <= parts.len(),
            xs == parts@.map_values(|s: String| s@),
            r@ == join_spec(xs.take(i as int), sep@),
        decreases parts.len() - i,
    {
        assert(xs.take(i + 1).drop_last() =~= xs.take(i as int));
        assert(xs.take(i + 1).last() == parts@[i as int]@);
        if i > 0 {
            r.append(sep);
        } else {
            assert(xs.take(1) =~= seq![parts@[0]@]);
        }
        r.append(parts[i].as_str());
        i += 1;
    }
    assert(xs.take(parts.len() as int) =~= xs);
    r
}


/// The pieces of `s` between occurrences of `sep` (`str::split` on one character).
pub open spec fn split_char(s: Seq<char>, sep: char) -> Seq<Seq<char>>
    decreases s.len(),
{
    if s.len() == 0 {
        seq![Seq::empty()]
    } else {
        let init = split_char(s.drop_last(), sep);
        if s.last() == sep {
            init.push(Seq::empty())
        } else {
            init.update(init.len() - 1, init.last().push(s.last()))
        }
    }
}

/// The pieces of `v` between occurrences of `sep`.
pub fn split_chars(v: &Vec<char>, sep: char) -> (r: Vec<Vec<char>>)
    ensures
        r@.map_values(|x: Vec<char>| x@) == split_char(v@, sep),
{
    let mut done: Vec<Vec<char>> = Vec::new();
    let mut cur: Vec<char> = Vec::new();
    let mut i: usize = 0;
    assert(v@.take(0) =~= Seq::<char>::empty());
    assert(done@.map_values(|x: Vec<char>| x@).push(cur@) =~= split_char(v@.take(0), sep));
    while i < v.len()
        invariant
            i <= v.len(),
            done@.map_values(|x: Vec<char>| x@).push(cur@) == split_char(v@.take(i as int), sep),
        decreases v.len() - i,
    {
        let ghost prev = split_char(v@.take(i as int), sep);
        let ghost d0 = done@;
        assert(v@.take(i + 1).drop_last() =~= v@.take(i as int));
        assert(v@.take(i + 1).last() == v@[i as int]);
        if v[i] == sep {
            let piece = cur;
            done.push(piece);
            cur = Vec::new();
            assert(done@ =~= d0.push(piece));
            assert(done@.map_values(|x: Vec<char>| x@).push(cur@) =~= prev.push(Seq::empty()));
        } else {
            cur.push(v[i]);
            assert(done@.map_values(|x: Vec<char>| x@).push(cur@) =~= prev.update(prev.len() - 1, prev.last().push(v@[i as int])));
        }
        i += 1;
    }
    assert(v@.take(v.len() as int) =~= v@);
    let ghost d1 = done@;
    done.push(cur);
    assert(done@ =~= d1.push(cur));
    done
}

/// The first index `k >= i` at which `pat` occurs in `s`.
pub open spec fn find_from(s: Seq<char>, pat: Seq<char>, i: int) -> Option<int>
    decreases s.len() - i,
{
    if i < 0 || i + pat.len() > s.len() {
        None
    } else if s.subrange(i, i + pat.len()) =~= pat {
        Some(i)
    } else {
        find_from(s, pat, i + 1)
    }
}

pub proof fn lemma_find_from_bounds(s: Seq<char>, pat: Seq<char>, i: int)
    ensures
        find_from(s, pat, i) matches Some(k) ==> i <= k && k + pat.len() <= s.len()
            && s.subrange(k, k + pat.len()) == pat,
    decreases s.len() - i,
{
    if i < 0 || i + pat.len() > s.len() {
    } else if s.subrange(i, i + pat.len()) =~= pat {
    } else {
        lemma_find_from_bounds(s, pat, i + 1);
    }
}

/// Whether `pat` occurs in `s` at position `j`.
pub fn occurs_at(s: &Vec<char>, pat: &Vec<char>, j: usize) -> (b: bool)
    requires
        j + pat.len() <= s.len(),
    ensures
        b == (s@.subrange(j as int, j + pat.len()) =~= pat@),
{
    let mut m: usize = 0;
    while m < pat.len()
        invariant
            j + pat.len() <= s.len(),
            m <= pat.len(),
            forall|t: int| 0 <= t < m ==> s@[j + t] == pat@[t],
        decreases pat.len() - m,
    {
        if s[j + m] != pat[m] {
            assert(s@.subrange(j as int, j + pat.len())[m as int] != pat@[m as int]);
            return false;
        }
        m += 1;
    }
    assert(s@.subrange(j as int, j + pat.len()) =~= pat@);
    true
}

/// The first occurrence of `pat` in `s` at or after `from`.
pub fn find_seq(s: &Vec<char>, pat: &Vec<char>, from: usize) -> (r: Option<usize>)
    ensures
        match r {
            Some(k) => find_from(s@, pat@, from as int) == Some(k as int),
            None => find_from(s@, pat@, from as int) is None,
        },
{
    let n = s.len();
    let mut j = from;
    while j <= n && pat.len() <= n - j
        invariant
            n == s.len(),
            from <= j,
            find_from(s@, pat@, from as int) == find_from(s@, pat@, j as int),
        decreases n + 1 - j,
    {
        if occurs_at(s, pat, j) {
            return Some(j);
        }
        j += 1;
    }
    None
}

/// Whether `pat` occurs in `s`.
pub open spec fn contains_seq(s: Seq<char>, pat: Seq<char>) -> bool {
    find_from(s, pat, 0) is Some
}

/// Whether the characters of `v` contain `pat`.
pub fn contains_chars(v: &Vec<char>, pat: &Vec<char>) -> (b: bool)
    ensures
        b == contains_seq(v@, pat@),
{
    find_seq(v, pat, 0).is_some()
}

/// The pieces of `s` between the occurrences of a non-empty `pat` that a search from
/// the left finds without overlap (`str::split` with a string pattern).
pub open spec fn split_pattern(s: Seq<char>, pat: Seq<char>) -> Seq<Seq<char>>
    recommends
        pat.len() > 0,
    decreases s.len(),
{
    if pat.len() == 0 || s.len() < pat.len() {
        seq![s]
    } else if s.take(pat.len() as int) =~= pat {
        seq![Seq::<char>::empty()] + split_pattern(s.skip(pat.len() as int), pat)
    } else {
        let rest = split_pattern(s.skip(1), pat);
        rest.update(0, seq![s[0]] + rest[0])
    }
}

pub proof fn lemma_split_pattern_nonempty(s: Seq<char>, pat: Seq<char>)
    ensures
        split_pattern(s, pat).len() >= 1,
    decreases s.len(),
{
    if pat.len() == 0 || s.len() < pat.len() {
    } else if s.take(pat.len() as int) =~= pat {
        lemma_split_pattern_nonempty(s.skip(pat.len() as int), pat);
    } else {
        lemma_split_pattern_nonempty(s.skip(1), pat);
    }
}

/// Where `s` does not start with `pat`, its first character joins the first piece of
/// the rest.
proof fn lemma_split_pattern_step(s: Seq<char>, pat: Seq<char>)
    requires
        pat.len() > 0,
        s.len() > 0,
        !(s.len() >= pat.len() && s.take(pat.len() as int) =~= pat),
    ensures
        split_pattern(s, pat) == split_pattern(s.skip(1), pat).update(
            0,
            seq![s[0]] + split_pattern(s.skip(1), pat)[0],
        ),
{
    lemma_split_pattern_nonempty(s.skip(1), pat);
    if s.len() < pat.len() {
        assert(split_pattern(s.skip(1), pat) == seq![s.skip(1)]);
        assert(seq![s[0]] + s.skip(1) =~= s);
        assert(split_pattern(s.skip(1), pat).update(0, seq![s[0]] + split_pattern(s.skip(1), pat)[0]) =~= seq![s]);
    }
}

/// The pieces of `v` between the occurrences of `pat`, found from the left.
pub fn split_on(v: &Vec<char>, pat: &Vec<char>) -> (r: Vec<Vec<char>>)
    requires
        pat.len() > 0,
    ensures
        r@.map_values(|x: Vec<char>| x@) == split_pattern(v@, pat@),
{
    let n = v.len();
    let mut done: Vec<Vec<char>> = Vec::new();
    let mut cur: Vec<char> = Vec::new();
    let mut i: usize = 0;
    proof {
        lemma_split_pattern_nonempty(v@, pat@);
        assert(v@.skip(0) =~= v@);
        let t = split_pattern(v@, pat@);
        assert(done@.map_values(|x: Vec<char>| x@) + seq![cur@ + t[0]] + t.skip(1) =~= t);
    }
    while i < n
        invariant
            n == v.len(),
            pat.len() > 0,
            i <= n,
            split_pattern(v@, pat@) == done@.map_values(|x: Vec<char>| x@) + seq![
                cur@ + split_pattern(v@.skip(i as int), pat@)[0]
            ] + split_pattern(v@.skip(i as int), pat@).skip(1),
        decreases n - i,
    {
        let ghost tail = v@.skip(i as int);
        let ghost d0 = done@;
        proof {
            lemma_split_pattern_nonempty(tail, pat@);
        }
        if pat.len() <= n - i && occurs_at(v, pat, i) {
            proof {
                assert(tail.take(pat.len() as int) =~= v@.subrange(i as int, i + pat.len()));
                assert(tail.skip(pat.len() as int) =~= v@.skip(i + pat.len()));
                lemma_split_pattern_nonempty(v@.skip(i + pat.len()), pat@);
            }
            let piece = cur;
            done.push(piece);
            cur = Vec::new();
            i = i + pat.len();
            proof {
                let t = split_pattern(v@.skip(i as int), pat@);
                assert(done@ =~= d0.push(piece));
                assert(done@.map_values(|x: Vec<char>| x@) =~= d0.map_values(|x: Vec<char>| x@).push(piece@));
                assert((seq![Seq::<char>::empty()] + t).skip(1) =~= t);
                assert(cur@ + t[0] =~= t[0]);
                assert(piece@ + Seq::<char>::empty() =~= piece@);
                assert(done@.map_values(|x: Vec<char>| x@) + seq![cur@ + t[0]] + t.skip(1) =~= d0.map_values(|x: Vec<char>| x@) + seq![piece@ + (seq![Seq::<char>::empty()] + t)[0]] + (seq![Seq::<char>::empty()] + t).skip(1));
            }
        } else {
            proof {
                if pat.len() <= n - i {
                    assert(tail.take(pat.len() as int) =~= v@.subrange(i as int, i + pat.len()));
                }
                lemma_split_pattern_step(tail, pat@);
                assert(tail.skip(1) =~= v@.skip(i + 1));
                assert(tail[0] == v@[i as int]);
                lemma_split_pattern_nonempty(v@.skip(i + 1), pat@);
            }
            let ghost c0 = cur@;
            cur.push(v[i]);
            i = i + 1;
            proof {
                let t = split_pattern(v@.skip(i as int), pat@);
                let old_t = t.update(0, seq![v@[i - 1]] + t[0]);
                assert(old_t.skip(1) =~= t.skip(1));
                assert(c0 + old_t[0] =~= cur@ + t[0]);
            }
        }
    }
    proof {
        assert(v@.skip(n as int) =~= Seq::<char>::empty());
        let t = split_pattern(v@.skip(n as int), pat@);
        assert(t == seq![Seq::<char>::empty()]);
        assert(cur@ + t[0] =~= cur@);
        assert(t.skip(1) =~= Seq::<Seq<char>>::empty());
    }
    let ghost d1 = done@;
    done.push(cur);
    proof {
        assert(done@ =~= d1.push(cur));
        assert(done@.map_values(|x: Vec<char>| x@) =~= d1.map_values(|x: Vec<char>| x@).push(cur@));
        assert(split_pattern(v@, pat@) =~= done@.map_values(|x: Vec<char>| x@));
    }
    done
}

/// Whether `c` occurs in `s`.
pub open spec fn has_char(s: Seq<char>, c: char) -> bool {
    exists|i: int| 0 <= i < s.len() && s[i] == c
}

/// Appending text without the separator extends the last piece.
pub proof fn lemma_split_char_extend(x: Seq<char>, b: Seq<char>, sep: char)
    requires
        !has_char(b, sep),
    ensures
        split_char(x + b, sep) == split_char(x, sep).update(
            split_char(x, sep).len() - 1,
            split_char(x, sep).last() + b,
        ),
    decreases b.len(),
{
    lemma_split_char_nonempty(x, sep);
    if b.len() == 0 {
        assert(x + b =~= x);
        assert(split_char(x, sep).last() + b =~= split_char(x, sep).last());
        assert(split_char(x, sep).update(split_char(x, sep).len() - 1, split_char(x, sep).last())
            =~= split_char(x, sep));
    } else {
        let b0 = b.drop_last();
        assert(!has_char(b0, sep)) by {
            if has_char(b0, sep) {
                let i = choose|i: int| 0 <= i < b0.len() && b0[i] == sep;
                assert(b[i] == sep);
            }
        }
        assert(b.last() != sep) by {
            assert(b[b.len() - 1] == b.last());
        }
        lemma_split_char_extend(x, b0, sep);
        assert((x + b).drop_last() =~= x + b0);
        assert((x + b).last() == b.last());
        lemma_split_char_nonempty(x + b0, sep);
        let p = split_char(x, sep);
        let q = split_char(x + b0, sep);
        assert(q == p.update(p.len() - 1, p.last() + b0));
        assert(q.len() == p.len());
        assert(q.last() == p.last() + b0);
        assert(split_char(x + b, sep) == q.update(q.len() - 1, q.last().push(b.last())));
        assert((p.last() + b0).push(b.last()) =~= p.last() + b);
        assert(q.update(q.len() - 1, q.last().push(b.last())) =~= p.update(p.len() - 1, p.last() + b));
    }
}

pub proof fn lemma_split_char_nonempty(s: Seq<char>, sep: char)
    ensures
        split_char(s, sep).len() >= 1,
    decreases s.len(),
{
    if s.len() > 0 {
        lemma_split_char_nonempty(s.drop_last(), sep);
    }
}

/// Two pieces joined by the separator split back into those pieces.
pub proof fn lemma_split_char_pair(a: Seq<char>, b: Seq<char>, sep: char)
    requires
        !has_char(a, sep),
        !has_char(b, sep),
    ensures
        split_char(a + seq![sep] + b, sep) == seq![a, b],
{
    lemma_split_char_extend(Seq::<char>::empty(), a, sep);
    assert(Seq::<char>::empty() + a =~= a);
    assert(split_char(Seq::<char>::empty(), sep) == seq![Seq::<char>::empty()]);
    assert(split_char(a, sep) =~= seq![a]) by {
        assert(seq![Seq::<char>::empty()].update(0, Seq::<char>::empty() + a) =~= seq![a]);
    }
    let x = a + seq![sep];
    assert(x.drop_last() =~= a);
    assert(x.last() == sep);
    assert(split_char(x, sep) =~= seq![a, Seq::<char>::empty()]);
    lemma_split_char_extend(x, b, sep);
    assert(seq![a, Seq::<char>::empty()].update(1, Seq::<char>::empty() + b) =~= seq![a, b]);
}

/// Removing a class of characters leaves text that holds none of them unchanged.
pub proof fn lemma_remove_class_none(s: Seq<char>, cls: CharClass)
    requires
        forall|i: int| 0 <= i < s.len() ==> !in_class(cls, #[trigger] s[i]),
    ensures
        remove_class(s, cls) == s,
    decreases s.len(),
{
    if s.len() > 0 {
        assert(!in_class(cls, s[s.len() - 1]));
        assert forall|i: int| 0 <= i < s.drop_last().len() implies !in_class(cls, #[trigger] s.drop_last()[i]) by {
            assert(s.drop_last()[i] == s[i]);
        }
        lemma_remove_class_none(s.drop_last(), cls);
        assert(s.drop_last().push(s.last()) =~= s);
    }
}

/// Stripping a class at both ends leaves text that neither begins nor ends with one
/// of its characters unchanged.
pub proof fn lemma_strip_ends_none(s: Seq<char>, start_cls: CharClass, end_cls: CharClass)
    requires
        s.len() > 0,
        !in_class(start_cls, s[0]),
        !in_class(end_cls, s.last()),
    ensures
        strip_start(s, start_cls) == s,
        strip_end(s, end_cls) == s,
{
}

} // verus!
