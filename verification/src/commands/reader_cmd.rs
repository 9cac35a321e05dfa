//! The reader themes offered to the user interface.
use vstd::prelude::*;

verus! {

/// A reader theme: its id, style, colour scheme and display label.
#[derive(Debug, Clone)]
pub struct ReaderTheme {
    pub id: String,
    pub style: String,
    pub color_scheme: String,
    pub label: String,
}

/// The (id, style, scheme, label) of each theme offered.
pub open spec fn reader_themes_spec() -> Seq<(Seq<char>, Seq<char>, Seq<char>, Seq<char>)> {
    seq![
        ("classic-light"@, "classic"@, "light"@, "Classic Light"@),
        ("classic-dark"@, "classic"@, "dark"@, "Classic Dark"@),
        ("paper-light"@, "paper"@, "light"@, "Paper Light"@),
        ("paper-dark"@, "paper"@, "dark"@, "Paper Dark"@),
    ]
}

fn theme(id: &str, style: &str, color_scheme: &str, label: &str) -> (r: ReaderTheme)
    ensures
        r.id@ == id@,
        r.style@ == style@,
        r.color_scheme@ == color_scheme@,
        r.label@ == label@,
{
    ReaderTheme {
        id: id.to_owned(),
        style: style.to_owned(),
        color_scheme: color_scheme.to_owned(),
        label: label.to_owned(),
    }
}

/// The reader themes: classic and paper, each light and dark.
pub fn get_reader_themes() -> (r: Result<Vec<ReaderTheme>, String>)
    ensures
        r matches Ok(v) && v@.map_values(|t: ReaderTheme| (t.id@, t.style@, t.color_scheme@, t.label@))
            == reader_themes_spec(),
{
    let v = vec![
        theme("classic-light", "classic", "light", "Classic Light"),
        theme("classic-dark", "classic", "dark", "Classic Dark"),
        theme("paper-light", "paper", "light", "Paper Light"),
        theme("paper-dark", "paper", "dark", "Paper Dark"),
    ];
    assert(v@.map_values(|t: ReaderTheme| (t.id@, t.style@, t.color_scheme@, t.label@)) =~= reader_themes_spec());
    Ok(v)
}

/// The theme used when a command names none.
pub fn theme_or_default(theme_id: Option<String>) -> (r: String)
    ensures
        r@ == match theme_id { Some(t) => t@, None => "classic-light"@ },
{
    match theme_id {
        Some(t) => t,
        None => "classic-light".to_owned(),
    }
}

} // verus!
