//! Markdown to reader HTML, rendered by comrak with the GitHub-flavoured extensions.
use vstd::prelude::*;
use crate::reader::theme::{themed_page, wrap_with_theme};

verus! {

/// The HTML that comrak renders for `md` with the table, strikethrough, autolink and
/// task-list extensions on.
pub uninterp spec fn comrak_gfm_html(md: Seq<char>) -> Seq<char>;

/// `comrak::markdown_to_html` with the table, strikethrough, autolink and task-list
/// extensions enabled: the result is named, not stated.
#[verifier::external_body]
fn comrak_render(md: &str) -> (r: String)
    ensures
        r@ == comrak_gfm_html(md@),
{
    let mut options = comrak::Options::default();
    options.extension.table = true;
    options.extension.strikethrough = true;
    options.extension.autolink = true;
    options.extension.tasklist = true;
    comrak::markdown_to_html(md, &options)
}

/// Converts Markdown to an HTML body (no page around it).
pub fn markdown_to_html(md: &str) -> (r: String)
    ensures
        r@ == comrak_gfm_html(md@),
{
    comrak_render(md)
}

/// Renders Markdown to a reader page in the theme `theme_id`.
pub fn render_markdown(md: &str, theme_id: &str) -> (r: String)
    ensures
        r@ == themed_page(comrak_gfm_html(md@), theme_id@),
{
    let body_html = markdown_to_html(md);
    wrap_with_theme(body_html.as_str(), theme_id)
}

} // verus!
