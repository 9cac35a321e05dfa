//! Prompt templates: `{{key}}` substitution and `{{#key}}...{{/key}}` conditional sections.
use vstd::prelude::*;
use crate::text::{chars_of, copy_chars, find_from, find_seq, has_char, lemma_find_from_bounds, push_char, string_of};

verus! {

/// The value bound to `k` by the last binding of `k` in `pairs`, if any.
pub open spec fn last_binding(pairs: Seq<(Seq<char>, Seq<char>)>, k: Seq<char>) -> Option<Seq<char>>
    decreases pairs.len(),
{
    if pairs.len() == 0 {
        None
    } else if pairs.last().0 == k {
        Some(pairs.last().1)
    } else {
        last_binding(pairs.drop_last(), k)
    }
}

/// Template parameters: a map from parameter names to values.
pub struct TemplateParams {
    entries: Vec<(String, String)>,
}

impl TemplateParams {
    /// The bindings in insertion order.
    pub closed spec fn bindings(&self) -> Seq<(Seq<char>, Seq<char>)> {
        self.entries@.map_values(|e: (String, String)| (e.0@, e.1@))
    }
}

impl View for TemplateParams {
    type V = Map<Seq<char>, Seq<char>>;

    closed spec fn view(&self) -> Map<Seq<char>, Seq<char>> {
        Map::new(
            |k: Seq<char>| last_binding(self.bindings(), k) is Some,
            |k: Seq<char>| last_binding(self.bindings(), k)->0,
        )
    }
}

impl TemplateParams {
    pub fn new() -> (r: Self)
        ensures
            r@ == Map::<Seq<char>, Seq<char>>::empty(),
    {
        let r = TemplateParams { entries: Vec::new() };
        assert(r@ =~= Map::<Seq<char>, Seq<char>>::empty());
        r
    }

    /// Binds `key` to `value`, replacing any earlier binding of `key`.
    pub fn insert(&mut self, key: String, value: String)
        ensures
            final(self)@ == old(self)@.insert(key@, value@),
    {
        let ghost k = key@;
        let ghost v = value@;
        self.entries.push((key, value));
        assert(self.bindings() =~= old(self).bindings().push((k, v)));
        assert(self.bindings().drop_last() =~= old(self).bindings());
        assert(self@ =~= old(self)@.insert(k, v));
    }

    /// The value bound to `key`, if any.
    pub fn get(&self, key: &str) -> (r: Option<&String>)
        ensures
            match r {
                Some(v) => self@.contains_key(key@) && v@ == self@[key@],
                None => !self@.contains_key(key@),
            },
    {
        let wanted = key.to_owned();
        assert(wanted@ == key@);
        let mut j = self.entries.len();
        assert(self.bindings().take(j as int) =~= self.bindings());
        while j > 0
            invariant
                j <= self.entries.len(),
                wanted@ == key@,
                last_binding(self.bindings(), wanted@) == last_binding(self.bindings().take(j as int), wanted@),
            decreases j,
        {
            let ghost t = self.bindings().take(j as int);
            assert(t.drop_last() =~= self.bindings().take(j - 1));
            if self.entries[j - 1].0 == wanted {
                assert(t.last() == self.bindings()[j - 1]);
                assert(last_binding(t, wanted@) == Some(self.entries@[j - 1].1@));
                assert(last_binding(self.bindings(), wanted@) is Some);
                assert(self@.contains_key(wanted@));
                assert(self@[wanted@] == self.entries@[j - 1].1@);
                let found = &self.entries[j - 1].1;
                assert(found@ == self@[key@]);
                return Some(found);
            }
            j -= 1;
        }
        assert(self.bindings().take(0) =~= Seq::<(Seq<char>, Seq<char>)>::empty());
        None
    }
}

/// `}}`, which closes a tag.
pub open spec fn tag_close() -> Seq<char> {
    seq!['}', '}']
}

/// `{{/key}}`, which closes the section of `key`.
pub open spec fn section_close(key: Seq<char>) -> Seq<char> {
    seq!['{', '{', '/'] + key + seq!['}', '}']
}

/// The text a `{{key}}` tag stands for: the bound value, or nothing.
pub open spec fn param_text(p: Map<Seq<char>, Seq<char>>, key: Seq<char>) -> Seq<char> {
    if p.contains_key(key) { p[key] } else { Seq::empty() }
}

/// A section `{{#key}}` is rendered when `key` is bound to a non-empty value.
pub open spec fn section_shown(p: Map<Seq<char>, Seq<char>>, key: Seq<char>) -> bool {
    p.contains_key(key) && p[key].len() > 0
}

/// Where the key of a tag opened at `i` ends, and where the text after the tag begins.
/// An unclosed tag runs to the end of the template.
pub open spec fn tag_end(s: Seq<char>, i: int) -> (int, int) {
    match find_from(s, tag_close(), i + 2) {
        Some(j) => (j, j + 2),
        None => (s.len() as int, s.len() as int),
    }
}

/// Where the body of a section of `key` starting at `b` ends, and where the text after
/// its closing tag begins. An unclosed section runs to the end of the template.
pub open spec fn section_end(s: Seq<char>, key: Seq<char>, b: int) -> (int, int) {
    match find_from(s, section_close(key), b) {
        Some(k) => (k, k + section_close(key).len()),
        None => (s.len() as int, s.len() as int),
    }
}

/// The rendering of `s` from position `i` on.
pub open spec fn render_from(s: Seq<char>, i: int, p: Map<Seq<char>, Seq<char>>) -> Seq<char>
    decreases s.len() - i,
{
    if i < 0 || i >= s.len() {
        Seq::empty()
    } else if i + 1 < s.len() && s[i] == '{' && s[i + 1] == '{' {
        let (ke, ri) = tag_end(s, i);
        proof {
            lemma_find_from_bounds(s, tag_close(), i + 2);
        }
        let key = s.subrange(i + 2, ke);
        if key.len() > 0 && key[0] == '#' {
            let name = key.skip(1);
            let (be, ai) = section_end(s, name, ri);
            proof {
                lemma_find_from_bounds(s, section_close(name), ri);
            }
            let shown = if section_shown(p, name) {
                render_from(s.subrange(ri, be), 0, p)
            } else {
                Seq::empty()
            };
            shown + render_from(s, ai, p)
        } else {
            param_text(p, key) + render_from(s, ri, p)
        }
    } else {
        seq![s[i]] + render_from(s, i + 1, p)
    }
}

/// The rendering of template `s` under the parameters `p`.
pub open spec fn render_spec(s: Seq<char>, p: Map<Seq<char>, Seq<char>>) -> Seq<char> {
    render_from(s, 0, p)
}

/// Whether `s` holds `{{` somewhere.
pub open spec fn has_open_tag(s: Seq<char>) -> bool {
    exists|i: int| 0 <= i && i + 1 < s.len() && #[trigger] s[i] == '{' && s[i + 1] == '{'
}

proof fn lemma_render_plain_from(s: Seq<char>, i: int, p: Map<Seq<char>, Seq<char>>)
    requires
        !has_open_tag(s),
        0 <= i <= s.len(),
    ensures
        render_from(s, i, p) == s.skip(i),
    decreases s.len() - i,
{
    if i < s.len() {
        if i + 1 < s.len() {
            assert(!(s[i] == '{' && s[i + 1] == '{'));
        }
        lemma_render_plain_from(s, i + 1, p);
        assert(seq![s[i]] + s.skip(i + 1) =~= s.skip(i));
    } else {
        assert(s.skip(i) =~= Seq::<char>::empty());
    }
}

/// Text without `{{` renders as itself, whatever the parameters.
pub proof fn lemma_render_plain_text(s: Seq<char>, p: Map<Seq<char>, Seq<char>>)
    requires
        !has_open_tag(s),
    ensures
        render_spec(s, p) == s,
{
    lemma_render_plain_from(s, 0, p);
    assert(s.skip(0) =~= s);
}

/// The first occurrence of `pat` at or after `i` is at `k` when it occurs there and
/// nowhere between.
proof fn lemma_find_first(s: Seq<char>, pat: Seq<char>, i: int, k: int)
    requires
        0 <= i <= k,
        k + pat.len() <= s.len(),
        s.subrange(k, k + pat.len()) == pat,
        forall|j: int| i <= j < k ==> #[trigger] s.subrange(j, j + pat.len()) != pat,
    ensures
        find_from(s, pat, i) == Some(k),
    decreases k - i,
{
    if i < k {
        assert(s.subrange(i, i + pat.len()) != pat);
        lemma_find_from_bounds(s, pat, i);
        lemma_find_first(s, pat, i + 1, k);
    } else {
        assert(s.subrange(i, i + pat.len()) =~= pat);
    }
}

/// The tag `{{key}}`.
pub open spec fn tag(key: Seq<char>) -> Seq<char> {
    seq!['{', '{'] + key + seq!['}', '}']
}

/// The closing `}}` of a tag around `key` is found right after the key, when the key
/// holds no `}`.
proof fn lemma_tag_close_found(s: Seq<char>, key: Seq<char>)
    requires
        !has_char(key, '}'),
        s.len() >= key.len() as int + 4,
        s.subrange(0, key.len() as int + 4) == tag(key),
    ensures
        find_from(s, tag_close(), 2) == Some(key.len() as int + 2),
{
    let t = tag(key);
    assert forall|j: int| 2 <= j < key.len() as int + 2 implies #[trigger] s.subrange(j, j + 2) != tag_close() by {
        assert(s[j] == t[j]);
        assert(t[j] == key[j - 2]);
        assert(s.subrange(j, j + 2)[0] == s[j]);
    }
    assert(s.subrange(key.len() as int + 2, key.len() as int + 4) =~= tag_close()) by {
        assert forall|m: int| 0 <= m < 2 implies s.subrange(key.len() as int + 2, key.len() as int + 4)[m] == tag_close()[m] by {
            assert(s[key.len() as int + 2 + m] == t[key.len() as int + 2 + m]);
        }
    }
    lemma_find_first(s, tag_close(), 2, key.len() as int + 2);
}

/// A `{{key}}` tag renders as the value bound to `key`, or as nothing when `key` is
/// unbound (for a key without `}` that does not open a section).
pub proof fn lemma_render_tag(key: Seq<char>, p: Map<Seq<char>, Seq<char>>)
    requires
        !has_char(key, '}'),
        key.len() == 0 || key[0] != '#',
    ensures
        render_spec(tag(key), p) == param_text(p, key),
{
    let s = tag(key);
    assert(s.subrange(0, key.len() as int + 4) =~= s);
    lemma_tag_close_found(s, key);
    assert(s.subrange(2, key.len() as int + 2) =~= key);
    assert(render_from(s, key.len() as int + 4, p) == Seq::<char>::empty());
    assert(param_text(p, key) + Seq::<char>::empty() =~= param_text(p, key));
}

/// The section `{{#key}}body{{/key}}`.
pub open spec fn section(key: Seq<char>, body: Seq<char>) -> Seq<char> {
    tag(seq!['#'] + key) + body + section_close(key)
}

/// Whether the first closing tag of `key` after `body` begins is the one right after it.
pub open spec fn closes_after(body: Seq<char>, key: Seq<char>) -> bool {
    forall|j: int|
        0 <= j < body.len() ==> #[trigger] (body + section_close(key)).subrange(
            j,
            j + section_close(key).len(),
        ) != section_close(key)
}

/// A section renders as its body, itself rendered, when its key is bound to a
/// non-empty value, and as nothing otherwise (for a key without `}` and a body that
/// does not close the section early).
pub proof fn lemma_render_section(key: Seq<char>, body: Seq<char>, p: Map<Seq<char>, Seq<char>>)
    requires
        !has_char(key, '}'),
        closes_after(body, key),
    ensures
        render_spec(section(key, body), p) == (if section_shown(p, key) {
            render_spec(body, p)
        } else {
            Seq::<char>::empty()
        }),
{
    let hk = seq!['#'] + key;
    let s = section(key, body);
    let c = section_close(key);
    let ri: int = hk.len() as int + 4;
    assert(!has_char(hk, '}')) by {
        if has_char(hk, '}') {
            let i = choose|i: int| 0 <= i < hk.len() && hk[i] == '}';
            assert(key[i - 1] == '}');
        }
    }
    assert(s.subrange(0, hk.len() as int + 4) =~= tag(hk));
    lemma_tag_close_found(s, hk);
    assert(s.subrange(2, hk.len() as int + 2) =~= hk);
    assert(hk.skip(1) =~= key);
    let rest = body + c;
    assert(s.skip(ri) =~= rest);
    assert forall|j: int| ri <= j < ri + body.len() as int implies #[trigger] s.subrange(j, j + c.len() as int) != c by {
        assert(s.subrange(j, j + c.len() as int) =~= rest.subrange(j - ri, j - ri + c.len() as int));
    }
    assert(s.subrange(ri + body.len() as int, ri + body.len() as int as int + c.len() as int) =~= c);
    lemma_find_first(s, c, ri, ri + body.len() as int);
    assert(s.subrange(ri, ri + body.len() as int) =~= body);
    assert(render_from(s, ri + body.len() as int as int + c.len() as int, p) == Seq::<char>::empty());
    assert(render_spec(body, p) + Seq::<char>::empty() =~= render_spec(body, p));
    assert(Seq::<char>::empty() + Seq::<char>::empty() =~= Seq::<char>::empty());
}


/// Searching in the text from `k` on finds what searching in the whole text finds,
/// shifted by `k`.
proof fn lemma_find_from_skip(s: Seq<char>, pat: Seq<char>, k: int, i: int)
    requires
        0 <= k <= i,
        k <= s.len(),
    ensures
        find_from(s.skip(k), pat, i - k) == match find_from(s, pat, i) {
            Some(j) => Some(j - k),
            None => None::<int>,
        },
    decreases s.len() - i,
{
    if i + pat.len() <= s.len() {
        assert(s.skip(k).subrange(i - k, i - k + pat.len()) =~= s.subrange(i, i + pat.len()));
        if !(s.subrange(i, i + pat.len()) =~= pat) {
            lemma_find_from_skip(s, pat, k, i + 1);
        }
    }
}

/// Rendering from position `i` reads only the text from `i` on: it is the rendering
/// of the text with any prefix up to `i` dropped.
proof fn lemma_render_from_skip(s: Seq<char>, k: int, i: int, p: Map<Seq<char>, Seq<char>>)
    requires
        0 <= k <= i,
        k <= s.len(),
    ensures
        render_from(s.skip(k), i - k, p) == render_from(s, i, p),
    decreases s.len() - i,
{
    let t = s.skip(k);
    if i < s.len() {
        assert(t[i - k] == s[i]);
        if i + 1 < s.len() && s[i] == '{' && s[i + 1] == '{' {
            assert(t[i - k + 1] == s[i + 1]);
            lemma_find_from_skip(s, tag_close(), k, i + 2);
            lemma_find_from_bounds(s, tag_close(), i + 2);
            let (ke, ri) = tag_end(s, i);
            assert(tag_end(t, i - k) == (ke - k, ri - k));
            assert(t.subrange(i - k + 2, ke - k) =~= s.subrange(i + 2, ke));
            let key = s.subrange(i + 2, ke);
            if key.len() > 0 && key[0] == '#' {
                let name = key.skip(1);
                lemma_find_from_skip(s, section_close(name), k, ri);
                lemma_find_from_bounds(s, section_close(name), ri);
                let (be, ai) = section_end(s, name, ri);
                assert(section_end(t, name, ri - k) == (be - k, ai - k));
                assert(t.subrange(ri - k, be - k) =~= s.subrange(ri, be));
                lemma_render_from_skip(s, k, ai, p);
            } else {
                lemma_render_from_skip(s, k, ri, p);
            }
        } else {
            lemma_render_from_skip(s, k, i + 1, p);
        }
    }
}

/// Rendering is compositional at a section: a template that begins with a section
/// renders as the section's body when its key is bound to a non-empty value (nothing
/// otherwise), followed by the rendering of the rest of the template, which is
/// rendered whether the section is shown or not (for a key without `}` and a body
/// that does not close the section early).
pub proof fn render_section_then_rest(
    key: Seq<char>,
    body: Seq<char>,
    rest: Seq<char>,
    p: Map<Seq<char>, Seq<char>>,
)
    requires
        !has_char(key, '}'),
        closes_after(body, key),
    ensures
        render_spec(section(key, body) + rest, p) == (if section_shown(p, key) {
            render_spec(body, p)
        } else {
            Seq::<char>::empty()
        }) + render_spec(rest, p),
{
    let hk = seq!['#'] + key;
    let sec = section(key, body);
    let s = sec + rest;
    let c = section_close(key);
    let ri: int = hk.len() as int + 4;
    assert(!has_char(hk, '}')) by {
        if has_char(hk, '}') {
            let i = choose|i: int| 0 <= i < hk.len() && hk[i] == '}';
            assert(key[i - 1] == '}');
        }
    }
    assert(s.subrange(0, hk.len() as int + 4) =~= tag(hk));
    lemma_tag_close_found(s, hk);
    assert(s.subrange(2, hk.len() as int + 2) =~= hk);
    assert(hk.skip(1) =~= key);
    let inner = body + c;
    assert forall|j: int| ri <= j < ri + body.len() as int implies #[trigger] s.subrange(j, j + c.len() as int) != c by {
        assert(s.subrange(j, j + c.len() as int) =~= inner.subrange(j - ri, j - ri + c.len() as int));
    }
    assert(s.subrange(ri + body.len() as int, ri + body.len() as int + c.len() as int) =~= c);
    lemma_find_first(s, c, ri, ri + body.len() as int);
    assert(s.subrange(ri, ri + body.len() as int) =~= body);
    let end: int = ri + body.len() as int + c.len() as int;
    assert(end == sec.len());
    lemma_render_from_skip(s, end, end, p);
    assert(s.skip(end) =~= rest);
}

/// `{{/name}}`, built from the characters of `name`.
fn build_section_close(name: &Vec<char>) -> (v: Vec<char>)
    ensures
        v@ == section_close(name@),
{
    let mut v: Vec<char> = vec!['{', '{', '/'];
    let mut i: usize = 0;
    while i < name.len()
        invariant
            i <= name.len(),
            v@ == seq!['{', '{', '/'] + name@.take(i as int),
        decreases name.len() - i,
    {
        v.push(name[i]);
        assert(name@.take(i + 1) =~= name@.take(i as int).push(name@[i as int]));
        i += 1;
    }
    v.push('}');
    v.push('}');
    assert(name@.take(name.len() as int) =~= name@);
    assert(v@ =~= section_close(name@));
    v
}

/// Renders the template held in `s`.
#[verifier::rlimit(40)]
fn render_chars(s: &Vec<char>, params: &TemplateParams) -> (r: String)
    ensures
        r@ == render_from(s@, 0, params@),
    decreases s.len(),
{
    let n = s.len();
    let mut result = String::new();
    let mut i: usize = 0;
    let close2: Vec<char> = vec!['}', '}'];
    assert(close2@ =~= tag_close());
    while i < n
        invariant
            i <= n,
            n == s.len(),
            close2@ == tag_close(),
            result@ + render_from(s@, i as int, params@) == render_from(s@, 0, params@),
        decreases n - i,
    {
        let ghost before = result@;
        if i + 1 < n && s[i] == '{' && s[i + 1] == '{' {
            proof {
                lemma_find_from_bounds(s@, tag_close(), i + 2);
            }
            let (ke, ri) = match find_seq(s, &close2, i + 2) {
                Some(j) => (j, j + 2),
                None => (n, n),
            };
            assert((ke as int, ri as int) == tag_end(s@, i as int));
            let ghost key = s@.subrange(i + 2, ke as int);
            if ke > i + 2 && s[i + 2] == '#' {
                let name = copy_chars(s, i + 3, ke);
                assert(name@ =~= key.skip(1));
                let closing = build_section_close(&name);
                proof {
                    lemma_find_from_bounds(s@, section_close(name@), ri as int);
                }
                let (be, ai) = match find_seq(s, &closing, ri) {
                    Some(k) => (k, k + closing.len()),
                    None => (n, n),
                };
                assert((be as int, ai as int) == section_end(s@, name@, ri as int));
                let name_str = string_of(s, i + 3, ke);
                let shown = match params.get(name_str.as_str()) {
                    Some(v) => !v.as_str().is_empty(),
                    None => false,
                };
                assert(shown == section_shown(params@, name@));
                if shown {
                    let body = copy_chars(s, ri, be);
                    let part = render_chars(&body, params);
                    result.append(part.as_str());
                }
                i = ai;
            } else {
                let key_str = string_of(s, i + 2, ke);
                match params.get(key_str.as_str()) {
                    Some(v) => result.append(v.as_str()),
                    None => {},
                }
                assert(result@ == before + param_text(params@, key));
                i = ri;
            }
        } else {
            push_char(&mut result, s[i]);
            i += 1;
        }
    }
    result
}

/// Renders a template string with `{{key}}` substitution and `{{#key}}...{{/key}}`
/// conditional sections. An unbound key renders as nothing; a section renders its
/// body (itself rendered) only when its key is bound to a non-empty value.
pub fn render_template(template: &str, params: &TemplateParams) -> (r: String)
    ensures
        r@ == render_spec(template@, params@),
{
    let s = chars_of(template);
    render_chars(&s, params)
}


/// A prompt template: an optional system message and a user message.
#[derive(Debug, Clone)]
pub struct PromptTemplate {
    pub version: u32,
    pub system: Option<String>,
    pub user: String,
}

/// A template with its messages rendered, ready for an LLM request.
#[derive(Debug, Clone)]
pub struct RenderedPrompt {
    pub system_message: Option<String>,
    pub user_message: String,
}

/// The system message a template yields: its rendering, unless there is none or it is empty.
pub open spec fn rendered_system(system: Option<Seq<char>>, p: Map<Seq<char>, Seq<char>>) -> Option<Seq<char>> {
    match system {
        Some(t) => if render_spec(t, p).len() > 0 { Some(render_spec(t, p)) } else { None },
        None => None,
    }
}

impl PromptTemplate {
    /// Renders both messages with the given parameters; an empty system message is dropped.
    pub fn render(&self, params: &TemplateParams) -> (r: RenderedPrompt)
        ensures
            r.user_message@ == render_spec(self.user@, params@),
            match r.system_message {
                Some(m) => rendered_system(
                    match self.system { Some(t) => Some(t@), None => None },
                    params@,
                ) == Some(m@),
                None => rendered_system(
                    match self.system { Some(t) => Some(t@), None => None },
                    params@,
                ) is None,
            },
    {
        let system_message = match &self.system {
            Some(tmpl) => {
                let m = render_template(tmpl.as_str(), params);
                if m.as_str().is_empty() { None } else { Some(m) }
            },
            None => None,
        };
        let user_message = render_template(self.user.as_str(), params);
        RenderedPrompt { system_message, user_message }
    }
}

} // verus!
