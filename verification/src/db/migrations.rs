//! Schema versions: which version a database records, and whether the initial
//! schema still has to be created.
use vstd::prelude::*;
use crate::decimal::{format_i64, int_decimal, lemma_parse_format_i64, parse_i64, parse_i64_spec};

verus! {

/// The schema version this build creates.
pub const SCHEMA_VERSION: i32 = 1;

/// The schema version a database records: the stored text read as an `i32`, or 0
/// when nothing is stored or the text is not such a number.
pub open spec fn stored_version_spec(stored: Option<Seq<char>>) -> i32 {
    match stored {
        Some(s) => match parse_i64_spec(s) {
            Some(v) => if i32::MIN <= v && v <= i32::MAX { v as i32 } else { 0 },
            None => 0,
        },
        None => 0,
    }
}

/// The schema version recorded by the stored setting, if any.
pub fn stored_schema_version(stored: Option<&str>) -> (r: i32)
    ensures
        r == stored_version_spec(match stored { Some(s) => Some(s@), None => None }),
{
    match stored {
        Some(s) => match parse_i64(s) {
            Some(v) => if -2147483648 <= v && v <= 2147483647 { v as i32 } else { 0 },
            None => 0,
        },
        None => 0,
    }
}

/// Whether a database at `version` still needs the initial schema.
pub fn needs_initial_schema(version: i32) -> (r: bool)
    ensures
        r == (version < 1),
{
    version < 1
}

/// The text the schema version is recorded as.
pub fn schema_version_text() -> (r: String)
    ensures
        r@ == int_decimal(SCHEMA_VERSION as int),
{
    format_i64(SCHEMA_VERSION as i64)
}

/// Migrating twice is migrating once: the version recorded by a migration reads back
/// as the current version, which needs no initial schema.
pub proof fn lemma_migration_idempotent()
    ensures
        stored_version_spec(Some(int_decimal(SCHEMA_VERSION as int))) == SCHEMA_VERSION,
        !(SCHEMA_VERSION < 1),
{
    lemma_parse_format_i64(SCHEMA_VERSION as i64);
}

} // verus!
