//! Article extraction by decruft.
use vstd::prelude::*;
use crate::db::models::DecruftOutput;

verus! {

/// What decruft extracts from `html` (fetched from `url`, if given): the article HTML,
/// its title, author, domain and language.
pub uninterp spec fn decruft_extract(html: Seq<char>, url: Option<Seq<char>>) -> (
    Seq<char>,
    Option<Seq<char>>,
    Option<Seq<char>>,
    Option<Seq<char>>,
    Option<Seq<char>>,
);

pub open spec fn opt_view(o: Option<String>) -> Option<Seq<char>> {
    match o {
        Some(s) => Some(s@),
        None => None,
    }
}

pub open spec fn decruft_output_view(d: DecruftOutput) -> (
    Seq<char>,
    Option<Seq<char>>,
    Option<Seq<char>>,
    Option<Seq<char>>,
    Option<Seq<char>>,
) {
    (d.content@, opt_view(d.title), opt_view(d.byline), opt_view(d.site_name), opt_view(d.language))
}

/// `decruft::parse` with the default options and the page URL: the content, title,
/// author, domain and language of its result. With network access off (the default),
/// decruft documents the result as a function of the HTML input.
#[verifier::external_body]
fn decruft_parse(html: &str, url: Option<&str>) -> (r: DecruftOutput)
    ensures
        decruft_output_view(r) == decruft_extract(html@, match url { Some(u) => Some(u@), None => None }),
{
    let mut options = decruft::DecruftOptions::default();
    options.url = url.map(|u| u.to_string());
    let result = decruft::parse(html, &options);
    DecruftOutput {
        content: result.content,
        title: result.title,
        byline: result.author,
        site_name: result.domain,
        language: result.language,
    }
}

/// Extracts the article content and metadata of a page.
pub fn extract_content(html: &str, url: Option<&str>) -> (r: Result<DecruftOutput, String>)
    ensures
        r matches Ok(d) && decruft_output_view(d) == decruft_extract(
            html@,
            match url { Some(u) => Some(u@), None => None },
        ),
{
    Ok(decruft_parse(html, url))
}

} // verus!
