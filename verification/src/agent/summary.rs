//! Summary runs: the prompt parameters built from an entry and the messages sent
//! while the summary streams in.
use vstd::prelude::*;
use crate::agent::prompt_templates::TemplateParams;
use crate::text::str_eq;

verus! {

/// The language name given to the model for a locale code; other codes are passed
/// through as they are.
pub open spec fn language_display_name(code: Seq<char>) -> Seq<char> {
    if code == "zh-Hans"@ {
        "Simplified Chinese"@
    } else if code == "zh-Hant"@ {
        "Traditional Chinese"@
    } else if code == "ja"@ {
        "Japanese"@
    } else if code == "ko"@ {
        "Korean"@
    } else if code == "fr"@ {
        "French"@
    } else if code == "de"@ {
        "German"@
    } else if code == "es"@ {
        "Spanish"@
    } else {
        code
    }
}

/// The language name given to the model for a locale code.
pub fn language_name(code: &str) -> (r: String)
    ensures
        r@ == language_display_name(code@),
{
    if str_eq(code, "zh-Hans") {
        "Simplified Chinese".to_string()
    } else if str_eq(code, "zh-Hant") {
        "Traditional Chinese".to_string()
    } else if str_eq(code, "ja") {
        "Japanese".to_string()
    } else if str_eq(code, "ko") {
        "Korean".to_string()
    } else if str_eq(code, "fr") {
        "French".to_string()
    } else if str_eq(code, "de") {
        "German".to_string()
    } else if str_eq(code, "es") {
        "Spanish".to_string()
    } else {
        code.to_string()
    }
}

/// The text of an optional field, empty when it is absent.
pub open spec fn text_or_empty(s: Option<String>) -> Seq<char> {
    match s {
        Some(t) => t@,
        None => Seq::empty(),
    }
}

/// The parameters of the summary prompt: the entry's title and author (empty when
/// absent), its Markdown, the target language's name and the detail level.
pub fn summary_params(
    title: Option<String>,
    author: Option<String>,
    content: &str,
    target_language: &str,
    detail_level: &str,
) -> (p: TemplateParams)
    ensures
        p@ == Map::<Seq<char>, Seq<char>>::empty()
            .insert("title"@, text_or_empty(title))
            .insert("byline"@, text_or_empty(author))
            .insert("content"@, content@)
            .insert("target_language"@, language_display_name(target_language@))
            .insert("detail_level"@, detail_level@),
{
    let mut p = TemplateParams::new();
    let t = match title {
        Some(t) => t,
        None => String::new(),
    };
    p.insert("title".to_string(), t);
    let a = match author {
        Some(a) => a,
        None => String::new(),
    };
    p.insert("byline".to_string(), a);
    p.insert("content".to_string(), content.to_string());
    p.insert("target_language".to_string(), language_name(target_language));
    p.insert("detail_level".to_string(), detail_level.to_string());
    p
}

/// The message sent when the summary has streamed in full.
pub fn summary_done_event() -> (r: String)
    ensures
        r@ == "{\"type\":\"done\"}"@,
{
    "{\"type\":\"done\"}".to_string()
}

/// The message sent when the summary request failed.
pub fn summary_error_event(message: &str) -> (r: String)
    ensures
        r@ == "{\"type\":\"error\",\"message\":\""@ + message@ + "\"}"@,
{
    let mut r = "{\"type\":\"error\",\"message\":\"".to_string();
    r.append(message);
    r.append("\"}");
    r
}

} // verus!
