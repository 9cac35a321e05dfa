//! Reader themes: the page that wraps rendered article HTML, and its style sheet for the
//! classic and paper styles in light and dark colour schemes.
use vstd::prelude::*;
use crate::text::{chars_of, has_char, lemma_split_char_pair, split_char, split_chars, string_of_chars};

verus! {

// The literal parts of the style sheet, between the values of a theme.
pub const CSS_0: &'static str = "
* { margin: 0; padding: 0; box-sizing: border-box; }
body {
    background: ";
pub const CSS_1: &'static str = ";
    color: ";
pub const CSS_2: &'static str = ";
    font-family: ";
pub const CSS_3: &'static str = ";
    line-height: 1.8;
    padding: 2rem 1.5rem;
    max-width: 720px;
    margin: 0 auto;
}
h1 { font-size: 2rem; font-weight: 700; margin: 2rem 0 1rem; }
h2 { font-size: 1.5rem; font-weight: 600; margin: 1.5rem 0 0.75rem; }
h3 { font-size: 1.25rem; font-weight: 600; margin: 1.25rem 0 0.5rem; }
h4 { font-size: 1.1rem; font-weight: 600; margin: 1rem 0 0.5rem; }
p { margin: 0.75rem 0; }
a { color: ";
pub const CSS_4: &'static str = "; text-decoration: underline; }
img { max-width: 100%; border-radius: 0.5rem; margin: 1rem 0; }
blockquote {
    border-left: 4px solid ";
pub const CSS_5: &'static str = ";
    padding-left: 1rem;
    margin: 1rem 0;
    color: ";
pub const CSS_6: &'static str = ";
    font-style: italic;
}
code {
    background: ";
pub const CSS_7: &'static str = ";
    padding: 0.125rem 0.375rem;
    border-radius: 0.25rem;
    font-family: ";
pub const CSS_8: &'static str = ";
    font-size: 0.9em;
}
pre {
    background: ";
pub const CSS_9: &'static str = ";
    padding: 1rem;
    border-radius: 0.5rem;
    overflow-x: auto;
    margin: 1rem 0;
}
pre code { background: none; padding: 0; }
ul, ol { margin: 0.75rem 0; padding-left: 1.5rem; }
li { margin: 0.25rem 0; }
table { width: 100%; border-collapse: collapse; margin: 1rem 0; }
thead { background: ";
pub const CSS_10: &'static str = "; }
th, td { border: 1px solid ";
pub const CSS_11: &'static str = "; padding: 0.5rem 0.75rem; text-align: left; }
th { font-weight: 600; font-size: 0.9em; }
del { text-decoration: line-through; color: ";
pub const CSS_12: &'static str = "; }
hr { border: none; border-top: 1px solid ";
pub const CSS_13: &'static str = "; margin: 2rem 0; }
figure { margin: 1.5rem 0; }
figcaption { font-size: 0.9em; color: ";
pub const CSS_14: &'static str = "; margin-top: 0.5rem; }
";

/// The font stack of the paper style.
pub const PAPER_FONT: &'static str = "\"Georgia\", \"Times New Roman\", serif";
/// The font stack of every other style.
pub const SANS_FONT: &'static str = "\"Inter\", -apple-system, BlinkMacSystemFont, \"Segoe UI\", sans-serif";
/// The font stack of code.
pub const MONO_FONT: &'static str = "\"JetBrains Mono\", ui-monospace, monospace";

/// The page around an article, up to its style sheet.
pub const PAGE_HEAD: &'static str = "<!DOCTYPE html>\n<html>\n<head><meta charset=\"utf-8\"><style>";
/// The page between the style sheet and the article body.
pub const PAGE_MID: &'static str = "</style></head>\n<body>\n<article class=\"reader\">\n";
/// The page after the article body.
pub const PAGE_TAIL: &'static str = "\n</article>\n</body>\n</html>";

/// The colours of a scheme: background, text, muted text, accent, code background, borders.
pub open spec fn palette(dark: bool) -> (Seq<char>, Seq<char>, Seq<char>, Seq<char>, Seq<char>, Seq<char>) {
    if dark {
        ("#1a1a2e"@, "#e0e0e0"@, "#888"@, "#6ca0ff"@, "#2a2a3e"@, "#333"@)
    } else {
        ("#ffffff"@, "#1a1a1a"@, "#666"@, "#2563eb"@, "#f3f4f6"@, "#e5e7eb"@)
    }
}

/// The style sheet of a style (`paper`, or any other for the sans-serif one) in a
/// colour scheme (`dark`, or any other for light).
pub open spec fn css_spec(style: Seq<char>, scheme: Seq<char>) -> Seq<char> {
    let (bg, text, muted, accent, code_bg, border) = palette(scheme == "dark"@);
    let font = if style == "paper"@ { PAPER_FONT@ } else { SANS_FONT@ };
    CSS_0@ + bg + CSS_1@ + text + CSS_2@ + font + CSS_3@ + accent + CSS_4@ + accent + CSS_5@
        + muted + CSS_6@ + code_bg + CSS_7@ + MONO_FONT@ + CSS_8@ + code_bg + CSS_9@ + code_bg
        + CSS_10@ + border + CSS_11@ + muted + CSS_12@ + border + CSS_13@ + muted + CSS_14@
}

/// The style and colour scheme a theme id names: `style-scheme`, or classic light when
/// the id is not two parts joined by `-`.
pub open spec fn theme_parts(theme_id: Seq<char>) -> (Seq<char>, Seq<char>) {
    let parts = split_char(theme_id, '-');
    if parts.len() == 2 { (parts[0], parts[1]) } else { ("classic"@, "light"@) }
}

/// A theme id made by `theme_id` from a style and a colour scheme without `-` is read
/// back as that style and scheme when a page is wrapped in the theme.
pub proof fn lemma_theme_id_roundtrip(style: Seq<char>, scheme: Seq<char>)
    requires
        !has_char(style, '-'),
        !has_char(scheme, '-'),
    ensures
        theme_parts(style + "-"@ + scheme) == (style, scheme),
{
    reveal_strlit("-");
    assert(style + "-"@ + scheme =~= style + seq!['-'] + scheme);
    lemma_split_char_pair(style, scheme, '-');
}

/// The page that shows `body` in the theme `theme_id`.
pub open spec fn themed_page(body: Seq<char>, theme_id: Seq<char>) -> Seq<char> {
    let (style, scheme) = theme_parts(theme_id);
    PAGE_HEAD@ + css_spec(style, scheme) + PAGE_MID@ + body + PAGE_TAIL@
}

fn css_for_theme(style: &str, color_scheme: &str) -> (r: String)
    ensures
        r@ == css_spec(style@, color_scheme@),
{
    let dark = color_scheme.to_owned() == "dark".to_owned();
    let (bg, text, muted, accent, code_bg, border): (&str, &str, &str, &str, &str, &str) = if dark {
        ("#1a1a2e", "#e0e0e0", "#888", "#6ca0ff", "#2a2a3e", "#333")
    } else {
        ("#ffffff", "#1a1a1a", "#666", "#2563eb", "#f3f4f6", "#e5e7eb")
    };
    let font = if style.to_owned() == "paper".to_owned() { PAPER_FONT } else { SANS_FONT };
    let mut css = CSS_0.to_owned();
    css.append(bg);
    css.append(CSS_1);
    css.append(text);
    css.append(CSS_2);
    css.append(font);
    css.append(CSS_3);
    css.append(accent);
    css.append(CSS_4);
    css.append(accent);
    css.append(CSS_5);
    css.append(muted);
    css.append(CSS_6);
    css.append(code_bg);
    css.append(CSS_7);
    css.append(MONO_FONT);
    css.append(CSS_8);
    css.append(code_bg);
    css.append(CSS_9);
    css.append(code_bg);
    css.append(CSS_10);
    css.append(border);
    css.append(CSS_11);
    css.append(muted);
    css.append(CSS_12);
    css.append(border);
    css.append(CSS_13);
    css.append(muted);
    css.append(CSS_14);
    css
}

/// Wraps rendered HTML in the reader page with the style sheet of `theme_id`.
pub fn wrap_with_theme(body_html: &str, theme_id: &str) -> (r: String)
    ensures
        r@ == themed_page(body_html@, theme_id@),
{
    let id = chars_of(theme_id);
    let parts = split_chars(&id, '-');
    let (style, scheme) = if parts.len() == 2 {
        (string_of_chars(&parts[0]), string_of_chars(&parts[1]))
    } else {
        ("classic".to_owned(), "light".to_owned())
    };
    let css = css_for_theme(style.as_str(), scheme.as_str());
    let mut page = PAGE_HEAD.to_owned();
    page.append(css.as_str());
    page.append(PAGE_MID);
    page.append(body_html);
    page.append(PAGE_TAIL);
    page
}

/// The id of the theme of a style in a colour scheme: `style-scheme`.
pub fn theme_id(style: &str, color_scheme: &str) -> (r: String)
    ensures
        r@ == style@ + "-"@ + color_scheme@,
{
    let mut r = style.to_owned();
    r.append("-");
    r.append(color_scheme);
    r
}

} // verus!
