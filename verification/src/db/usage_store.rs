//! The reporting windows of LLM usage.
use vstd::prelude::*;
use crate::decimal::{format_i64, int_decimal};
use crate::text::str_eq;

verus! {

/// The days a usage window covers: 7, 30 or 90 for `7d`, `30d` and `90d`, and 30
/// for any other window.
pub open spec fn window_days(window: Seq<char>) -> i64 {
    if window == "7d"@ {
        7
    } else if window == "30d"@ {
        30
    } else if window == "90d"@ {
        90
    } else {
        30
    }
}

/// The days a usage window covers.
pub fn usage_window_days(window: &str) -> (r: i64)
    ensures
        r == window_days(window@),
{
    if str_eq(window, "7d") {
        7
    } else if str_eq(window, "30d") {
        30
    } else if str_eq(window, "90d") {
        90
    } else {
        30
    }
}

/// The SQLite date modifier that goes back over a usage window, `-<days> days`.
pub fn usage_window_modifier(window: &str) -> (r: String)
    ensures
        r@ == "-"@ + int_decimal(window_days(window@) as int) + " days"@,
{
    let days = usage_window_days(window);
    let mut r = "-".to_string();
    let d = format_i64(days);
    r.append(d.as_str());
    r.append(" days");
    r
}

} // verus!
