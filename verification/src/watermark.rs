//! Watermarks: the `last_sync_time` that parts synced rows from unsynced ones.
//!
//! A watermark is text. For a table whose `updated_at` is integer-typed it is
//! the decimal text of epoch milliseconds; for any other table it is a local
//! date-time written as `YYYY-MM-DD HH:MM:SS`.

use vstd::prelude::*;
use crate::text::{
    contains_text, decimal_string, decimal_text, integer_value, is_i64_text, occurs_in,
    parses_as_i64, text_less, to_upper, uppercased,
};

verus! {

/// An upper-cased type name is integer-like: it mentions `INT`.
pub open spec fn integer_like(upper: Seq<char>) -> bool {
    occurs_in("INT"@, upper)
}

/// Whether an upper-cased type name is integer-like.
pub fn mentions_int(upper: &str) -> (out: bool)
    ensures
        out == integer_like(upper@),
{
    contains_text(upper, "INT")
}

/// Whether a declared column type is integer-like, in any letter case.
pub fn is_integer_type(column_type: &str) -> (out: bool)
    ensures
        out == integer_like(uppercased(column_type@)),
{
    let upper = to_upper(column_type);
    mentions_int(upper.as_str())
}

/// The watermark of a table that was never synced.
pub open spec fn zero_text(integer_typed: bool) -> Seq<char> {
    if integer_typed {
        "0"@
    } else {
        "1970-01-01 00:00:00"@
    }
}

/// The watermark of a table that was never synced.
pub fn zero_watermark(integer_typed: bool) -> (out: String)
    ensures
        out@ == zero_text(integer_typed),
{
    if integer_typed {
        String::from_str("0")
    } else {
        String::from_str("1970-01-01 00:00:00")
    }
}

/// The epoch milliseconds that a `YYYY-MM-DD HH:MM:SS` text stands for when
/// read as UTC, as chrono parses it; none where chrono rejects the text.
pub uninterp spec fn legacy_millis(stored: Seq<char>) -> Option<i64>;

/// `chrono::NaiveDateTime::parse_from_str` with the format
/// `%Y-%m-%d %H:%M:%S`, the result taken as UTC epoch milliseconds. The
/// result is named, not described.
#[verifier::external_body]
pub(crate) fn parse_legacy_millis(stored: &str) -> (out: Option<i64>)
    ensures
        out == legacy_millis(stored@),
{
    match chrono::NaiveDateTime::parse_from_str(stored, "%Y-%m-%d %H:%M:%S") {
        Ok(dt) => Some(dt.and_utc().timestamp_millis()),
        Err(_) => None,
    }
}

/// The watermark that a cycle filters by, given what the ledger holds and what
/// the legacy date-time reading of it gave. A date-time table takes the stored
/// text as it is. An integer table takes it if it is an integer; else the
/// legacy reading in milliseconds; else zero.
pub open spec fn resolved_text(stored: Seq<char>, integer_typed: bool, legacy: Option<i64>) -> Seq<
    char,
> {
    if !integer_typed || is_i64_text(stored) {
        stored
    } else {
        match legacy {
            Some(ms) => decimal_text(ms as int),
            None => "0"@,
        }
    }
}

/// Settles the watermark to filter by, once the legacy reading is known.
pub fn resolve_watermark(stored: &str, integer_typed: bool, legacy: Option<i64>) -> (out: String)
    ensures
        out@ == resolved_text(stored@, integer_typed, legacy),
{
    if !integer_typed || parses_as_i64(stored) {
        String::from_str(stored)
    } else {
        match legacy {
            Some(ms) => decimal_string(ms as i128),
            None => String::from_str("0"),
        }
    }
}

/// Settles the watermark to filter by: a stored date-time under an integer
/// table is a leftover of an earlier encoding and is converted, and text that
/// is neither integer nor date-time resets the watermark to zero.
pub fn normalize_watermark(stored: &str, integer_typed: bool) -> (out: String)
    ensures
        out@ == resolved_text(stored@, integer_typed, legacy_millis(stored@)),
{
    if !integer_typed || parses_as_i64(stored) {
        String::from_str(stored)
    } else {
        let legacy = parse_legacy_millis(stored);
        resolve_watermark(stored, integer_typed, legacy)
    }
}

/// The watermark for a clock reading, in the table's encoding.
pub open spec fn now_text(integer_typed: bool, millis: i64, local: Seq<char>) -> Seq<char> {
    if integer_typed {
        decimal_text(millis as int)
    } else {
        local
    }
}

/// Writes a clock reading as a watermark in the table's encoding. The caller
/// reads the clock once, when the cycle begins, and hands in the reading both
/// as epoch milliseconds and as local date-time text.
pub fn now_watermark(integer_typed: bool, millis: i64, local: &str) -> (out: String)
    ensures
        out@ == now_text(integer_typed, millis, local@),
{
    if integer_typed {
        decimal_string(millis as i128)
    } else {
        String::from_str(local)
    }
}

/// `a` is not after `b`, as the database compares `updated_at` with the
/// watermark: by number for an integer table, as text for a date-time table.
pub open spec fn not_after(a: Seq<char>, b: Seq<char>, integer_typed: bool) -> bool {
    if integer_typed {
        integer_value(a) <= integer_value(b)
    } else {
        !text_less(b, a)
    }
}

} // verus!
