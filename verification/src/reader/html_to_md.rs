//! HTML to Markdown, converted by htmd.
use vstd::prelude::*;

verus! {

/// The Markdown that htmd makes of `html`, or `None` when it fails.
pub uninterp spec fn htmd_markdown(html: Seq<char>) -> Option<Seq<char>>;

/// `htmd::convert`: the Markdown of `html`, or the text of its error.
#[verifier::external_body]
fn htmd_convert(html: &str) -> (r: Result<String, String>)
    ensures
        match r {
            Ok(md) => htmd_markdown(html@) == Some(md@),
            Err(_) => htmd_markdown(html@) is None,
        },
{
    htmd::convert(html).map_err(|e| e.to_string())
}

/// Converts cleaned HTML to Markdown; when htmd fails, the error says so.
pub fn convert_html_to_markdown(html: &str) -> (r: Result<String, String>)
    ensures
        match r {
            Ok(md) => htmd_markdown(html@) == Some(md@),
            Err(e) => htmd_markdown(html@) is None && exists|m: Seq<char>| e@ == "htmd conversion failed: "@ + m,
        },
{
    match htmd_convert(html) {
        Ok(md) => Ok(md),
        Err(m) => {
            let mut e = "htmd conversion failed: ".to_string();
            e.append(m.as_str());
            assert(e@ == "htmd conversion failed: "@ + m@);
            Err(e)
        },
    }
}

} // verus!
