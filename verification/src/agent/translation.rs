//! Translation runs: the article is cut into paragraphs, each is translated on its
//! own, progress is reported per segment, and token usage is summed over the run.
use vstd::prelude::*;
use vstd::utf8::encode_utf8;
use crate::agent::credential_store::{hex_digit, hex_encode, hex_lower};
use crate::agent::prompt_templates::TemplateParams;
use crate::agent::provider::UsageInfo;
use crate::decimal::{format_u64, nat_digits};
use crate::text::{chars_of, split_on, split_pattern, string_of_chars, trim_chars, trim_spec};

verus! {

/// The separator between paragraphs of Markdown.
pub open spec fn paragraph_break() -> Seq<char> {
    seq!['\n', '\n']
}

/// Whether a piece holds more than whitespace.
pub open spec fn has_text(p: Seq<char>) -> bool {
    trim_spec(p).len() > 0
}

pub open spec fn has_text_pred() -> spec_fn(Seq<char>) -> bool {
    |p: Seq<char>| has_text(p)
}

/// The segments of an article: its paragraphs, without those that hold only
/// whitespace.
pub open spec fn translation_segments_spec(markdown: Seq<char>) -> Seq<Seq<char>> {
    split_pattern(markdown, paragraph_break()).filter(has_text_pred())
}

/// Cuts an article into the segments that are translated one by one; an error when
/// none holds text.
pub fn translation_segments(markdown: &str) -> (r: Result<Vec<String>, String>)
    ensures
        match r {
            Ok(v) => v@.map_values(|s: String| s@) == translation_segments_spec(markdown@)
                && v@.len() > 0,
            Err(e) => translation_segments_spec(markdown@).len() == 0
                && e@ == "No translatable content found"@,
        },
{
    let text = chars_of(markdown);
    let mut pat: Vec<char> = Vec::new();
    pat.push('\n');
    pat.push('\n');
    assert(pat@ =~= paragraph_break());
    let pieces = split_on(&text, &pat);
    let ghost ps = pieces@.map_values(|x: Vec<char>| x@);
    let mut out: Vec<String> = Vec::new();
    assert(ps.take(0) =~= Seq::<Seq<char>>::empty());
    proof {
        reveal(Seq::filter);
    }
    for i in 0..pieces.len()
        invariant
            ps == pieces@.map_values(|x: Vec<char>| x@),
            out@.map_values(|s: String| s@) == ps.take(i as int).filter(has_text_pred()),
    {
        let ghost before = out@;
        proof {
            reveal(Seq::filter);
        }
        assert(ps.take(i + 1).drop_last() =~= ps.take(i as int));
        assert(ps.take(i + 1).last() == ps[i as int]);
        assert(ps[i as int] == pieces@[i as int]@);
        let trimmed = trim_chars(&pieces[i]);
        if trimmed.len() > 0 {
            assert(has_text_pred()(ps[i as int]));
            let s = string_of_chars(&pieces[i]);
            out.push(s);
            assert(out@.map_values(|s: String| s@) =~= before.map_values(|s: String| s@).push(ps[i as int]));
            assert(ps.take(i + 1).filter(has_text_pred()) == ps.take(i as int).filter(has_text_pred()).push(ps[i as int]));
        } else {
            assert(!has_text_pred()(ps[i as int]));
            assert(ps.take(i + 1).filter(has_text_pred()) == ps.take(i as int).filter(has_text_pred()));
        }
    }
    assert(ps.take(pieces.len() as int) =~= ps);
    if out.len() == 0 {
        Err("No translatable content found".to_string())
    } else {
        Ok(out)
    }
}

/// The bytes of the segments, one after another.
pub open spec fn joined_bytes(segments: Seq<Seq<char>>) -> Seq<u8>
    decreases segments.len(),
{
    if segments.len() == 0 {
        Seq::empty()
    } else {
        joined_bytes(segments.drop_last()) + encode_utf8(segments.last())
    }
}

/// UTF-8 encodes a concatenation piece by piece.
proof fn lemma_encode_utf8_concat(a: Seq<char>, b: Seq<char>)
    ensures
        encode_utf8(a + b) == encode_utf8(a) + encode_utf8(b),
    decreases a.len(),
{
    if a.len() > 0 {
        assert((a + b).drop_first() =~= a.drop_first() + b);
        lemma_encode_utf8_concat(a.drop_first(), b);
        assert((a + b)[0] == a[0]);
    } else {
        assert(a + b =~= b);
    }
}

/// The bytes that are hashed are the UTF-8 encoding of the segments' text, read as
/// one string.
pub proof fn joined_bytes_are_utf8_of_text(segments: Seq<Seq<char>>)
    ensures
        joined_bytes(segments) == encode_utf8(segments.flatten()),
    decreases segments.len(),
{
    if segments.len() == 0 {
        assert(segments.flatten() =~= Seq::<char>::empty());
    } else {
        let init = segments.drop_last();
        assert(init.push(segments.last()) =~= segments);
        init.lemma_flatten_push(segments.last());
        joined_bytes_are_utf8_of_text(init);
        lemma_encode_utf8_concat(init.flatten(), segments.last());
    }
}

/// The source hash depends only on the text of the segments, not on where that text
/// is cut into segments.
pub proof fn source_hash_depends_on_text_only(a: Seq<Seq<char>>, b: Seq<Seq<char>>)
    requires
        a.flatten() == b.flatten(),
    ensures
        source_content_hash(a) == source_content_hash(b),
{
    joined_bytes_are_utf8_of_text(a);
    joined_bytes_are_utf8_of_text(b);
}

/// The SHA-256 digest of `data`.
pub uninterp spec fn sha256(data: Seq<u8>) -> Seq<u8>;

/// `sha2::Sha256::digest`: the SHA-256 digest of `data`, 32 bytes long.
#[verifier::external_body]
fn sha256_digest(data: &[u8]) -> (d: Vec<u8>)
    ensures
        d@ == sha256(data@),
        d@.len() == 32,
{
    <sha2::Sha256 as sha2::Digest>::digest(data).to_vec()
}

/// The hash that marks which source text a translation was made from.
pub open spec fn source_content_hash(segments: Seq<Seq<char>>) -> Seq<char> {
    hex_lower(sha256(joined_bytes(segments)))
}

/// The SHA-256 digest of all segments, in lowercase hexadecimal.
pub fn compute_source_content_hash(segments: &[&str]) -> (r: String)
    ensures
        r@ == source_content_hash(segments@.map_values(|s: &str| s@)),
        r@.len() == 64,
{
    let ghost segs = segments@.map_values(|s: &str| s@);
    let mut data: Vec<u8> = Vec::new();
    assert(segs.take(0) =~= Seq::<Seq<char>>::empty());
    for i in 0..segments.len()
        invariant
            segs == segments@.map_values(|s: &str| s@),
            data@ == joined_bytes(segs.take(i as int)),
    {
        let bytes = segments[i].as_bytes();
        let ghost start = data@;
        for j in 0..bytes.len()
            invariant
                data@ == start + bytes@.take(j as int),
        {
            data.push(bytes[j]);
            assert(data@ =~= start + bytes@.take(j + 1));
        }
        assert(bytes@.take(bytes.len() as int) =~= bytes@);
        assert(segs.take(i + 1).drop_last() =~= segs.take(i as int));
        assert(segs.take(i + 1).last() == segs[i as int]);
    }
    assert(segs.take(segments.len() as int) =~= segs);
    let digest = sha256_digest(data.as_slice());
    hex_encode(digest.as_slice())
}

/// The parameters of the translation prompt for one segment: the target language, the
/// segment, and, for every segment but the first, the segment before it as context.
pub fn translation_params(target_language: &str, source_text: &str, previous: Option<&str>) -> (p: TemplateParams)
    ensures
        p@ == ({
            let base = Map::<Seq<char>, Seq<char>>::empty().insert("target_language"@, target_language@).insert(
                "source_text"@,
                source_text@,
            );
            match previous {
                Some(x) => base.insert("previous"@, x@),
                None => base,
            }
        }),
{
    let mut p = TemplateParams::new();
    p.insert("target_language".to_string(), target_language.to_string());
    p.insert("source_text".to_string(), source_text.to_string());
    match previous {
        Some(x) => p.insert("previous".to_string(), x.to_string()),
        None => {},
    }
    p
}

/// The parameters of the translation prompt for segment `i` of an article: that
/// segment, and the segment before it as context where there is one.
pub fn segment_params(target_language: &str, segments: &Vec<String>, i: usize) -> (p: TemplateParams)
    requires
        i < segments.len(),
    ensures
        p@ == ({
            let base = Map::<Seq<char>, Seq<char>>::empty().insert("target_language"@, target_language@).insert(
                "source_text"@,
                segments@[i as int]@,
            );
            if i > 0 {
                base.insert("previous"@, segments@[i - 1]@)
            } else {
                base
            }
        }),
{
    if i > 0 {
        translation_params(target_language, segments[i].as_str(), Some(segments[i - 1].as_str()))
    } else {
        translation_params(target_language, segments[i].as_str(), None)
    }
}

/// The JSON escape of one character in a string (`serde_json`'s rules).
pub open spec fn json_escape_char(c: char) -> Seq<char> {
    if c == '"' {
        seq!['\\', '"']
    } else if c == '\\' {
        seq!['\\', '\\']
    } else if c == '\u{8}' {
        seq!['\\', 'b']
    } else if c == '\t' {
        seq!['\\', 't']
    } else if c == '\n' {
        seq!['\\', 'n']
    } else if c == '\u{c}' {
        seq!['\\', 'f']
    } else if c == '\r' {
        seq!['\\', 'r']
    } else if (c as u32) < 0x20 {
        seq!['\\', 'u', '0', '0', hex_digit(c as int / 16), hex_digit(c as int % 16)]
    } else {
        seq![c]
    }
}

/// A JSON string literal holding `s`.
pub open spec fn json_quoted(s: Seq<char>) -> Seq<char> {
    seq!['"'] + s.map_values(|c: char| json_escape_char(c)).flatten() + seq!['"']
}

/// `serde_json::to_string` on a string: the string as a JSON literal, in double
/// quotes, with `"`, `\` and the control characters below U+0020 escaped.
#[verifier::external_body]
pub(crate) fn json_string(text: &str) -> (r: String)
    ensures
        r@ == json_quoted(text@),
{
    serde_json::to_string(text).unwrap_or_default()
}

/// The progress message sent before segment `index` (counted from zero) of `total`.
pub fn progress_event(index: usize, total: usize) -> (r: String)
    requires
        index < total,
    ensures
        r@ == "{\"type\":\"progress\",\"segment\":"@ + nat_digits(index as nat + 1) + ",\"total\":"@
            + nat_digits(total as nat) + "}"@,
{
    let mut r = "{\"type\":\"progress\",\"segment\":".to_string();
    let n = format_u64((index + 1) as u64);
    r.append(n.as_str());
    r.append(",\"total\":");
    let t = format_u64(total as u64);
    r.append(t.as_str());
    r.append("}");
    r
}

/// The message that carries the translation of segment `index`.
pub fn segment_event(index: usize, text: &str) -> (r: String)
    ensures
        r@ == "{\"type\":\"segment\",\"index\":"@ + nat_digits(index as nat) + ",\"text\":"@
            + json_quoted(text@) + "}"@,
{
    let mut r = "{\"type\":\"segment\",\"index\":".to_string();
    let n = format_u64(index as u64);
    r.append(n.as_str());
    r.append(",\"text\":");
    let q = json_string(text);
    r.append(q.as_str());
    r.append("}");
    r
}

/// The message sent when segment `index` could not be translated.
pub fn segment_error_event(index: usize, error: &str) -> (r: String)
    ensures
        r@ == "{\"type\":\"error\",\"segment\":"@ + nat_digits(index as nat) + ",\"error\":\""@
            + error@ + "\"}"@,
{
    let mut r = "{\"type\":\"error\",\"segment\":".to_string();
    let n = format_u64(index as u64);
    r.append(n.as_str());
    r.append(",\"error\":\"");
    r.append(error);
    r.append("\"}");
    r
}

/// The message sent when every segment has been handled.
pub fn translation_done_event() -> (r: String)
    ensures
        r@ == "{\"type\":\"done\",\"result\":\"translation_complete\"}"@,
{
    "{\"type\":\"done\",\"result\":\"translation_complete\"}".to_string()
}

/// The sum of one token count over the segments that reported usage.
pub open spec fn usage_sum(usages: Seq<Option<UsageInfo>>, field: spec_fn(UsageInfo) -> u32) -> int
    decreases usages.len(),
{
    if usages.len() == 0 {
        0
    } else {
        usage_sum(usages.drop_last(), field) + match usages.last() {
            Some(u) => field(u) as int,
            None => 0,
        }
    }
}

pub open spec fn prompt_field() -> spec_fn(UsageInfo) -> u32 {
    |u: UsageInfo| u.prompt_tokens
}

pub open spec fn completion_field() -> spec_fn(UsageInfo) -> u32 {
    |u: UsageInfo| u.completion_tokens
}

pub open spec fn total_field() -> spec_fn(UsageInfo) -> u32 {
    |u: UsageInfo| u.total_tokens
}

proof fn lemma_usage_sum_bound(usages: Seq<Option<UsageInfo>>, field: spec_fn(UsageInfo) -> u32)
    ensures
        0 <= usage_sum(usages, field) <= usages.len() * 0xffff_ffff,
    decreases usages.len(),
{
    if usages.len() > 0 {
        lemma_usage_sum_bound(usages.drop_last(), field);
    }
}

/// The prompt, completion and total token counts of a run, summed over the segments
/// that reported usage (`None` for a segment that failed or reported none).
pub fn usage_totals(usages: &Vec<Option<UsageInfo>>) -> (r: (i64, i64, i64))
    requires
        usages.len() <= 0x8000_0000,
    ensures
        r.0 == usage_sum(usages@, prompt_field()),
        r.1 == usage_sum(usages@, completion_field()),
        r.2 == usage_sum(usages@, total_field()),
{
    let mut p: i64 = 0;
    let mut c: i64 = 0;
    let mut t: i64 = 0;
    for i in 0..usages.len()
        invariant
            usages.len() <= 0x8000_0000,
            p == usage_sum(usages@.take(i as int), prompt_field()),
            c == usage_sum(usages@.take(i as int), completion_field()),
            t == usage_sum(usages@.take(i as int), total_field()),
    {
        proof {
            assert(usages@.take(i + 1).drop_last() =~= usages@.take(i as int));
            lemma_usage_sum_bound(usages@.take(i as int), prompt_field());
            lemma_usage_sum_bound(usages@.take(i as int), completion_field());
            lemma_usage_sum_bound(usages@.take(i as int), total_field());
        }
        if let Some(u) = usages[i] {
            p = p + u.prompt_tokens as i64;
            c = c + u.completion_tokens as i64;
            t = t + u.total_tokens as i64;
        }
    }
    assert(usages@.take(usages.len() as int) =~= usages@);
    (p, c, t)
}

} // verus!
