//! Date and time text, through `chrono`.
//!
//! An instant is carried as plain values: the Unix timestamp in seconds, the
//! sub-second nanoseconds, and the UTC offset in seconds of the time zone it was
//! written in.
use std::fmt::Write;

use chrono::{DateTime, FixedOffset};
use vstd::prelude::*;

verus! {

/// What `chrono::DateTime::parse_from_rfc3339` gives for `text`: `None` where it
/// returns an error, else the parsed instant as (timestamp, sub-second
/// nanoseconds, offset seconds).
pub uninterp spec fn rfc3339_instant(text: Seq<char>) -> Option<(i64, u32, i32)>;

/// What `chrono` writes for `format` (a strftime pattern) and the instant given as
/// (timestamp, sub-second nanoseconds, offset seconds), shown in that offset:
/// `None` where the instant is not representable or the pattern fails to format.
pub uninterp spec fn strftime(instant: (i64, u32, i32), format: Seq<char>) -> Option<Seq<char>>;

/// What `chrono::DateTime::<Utc>::to_rfc3339` writes for the instant with Unix
/// timestamp `secs` and sub-second nanoseconds `nanos`; `None` where
/// `DateTime::from_timestamp` rejects the pair.
pub uninterp spec fn utc_rfc3339(secs: i64, nanos: u32) -> Option<Seq<char>>;

/// Calls `chrono::DateTime::parse_from_rfc3339` on `text` and reads the result
/// back as plain values (`timestamp`, `timestamp_subsec_nanos`, and the offset's
/// `local_minus_utc`). Claims that the outcome is `rfc3339_instant(text)`, and that
/// a parsed instant can be written with the event grid's pattern
/// `%m/%d/%Y %l:%M%P`: its offset passes `FixedOffset::east_opt`, its timestamp
/// passes `DateTime::from_timestamp`, and that pattern has no item that fails.
#[verifier::external_body]
pub(crate) fn parse_rfc3339(text: &str) -> (instant: Option<(i64, u32, i32)>)
    ensures
        instant == rfc3339_instant(text@),
        instant matches Some(t) ==> strftime(t, "%m/%d/%Y %l:%M%P"@) is Some,
{
    match DateTime::parse_from_rfc3339(text) {
        Ok(dt) => Some((dt.timestamp(), dt.timestamp_subsec_nanos(), dt.offset().local_minus_utc())),
        Err(_) => None,
    }
}

/// Rebuilds the instant as a `chrono::DateTime<FixedOffset>` (`FixedOffset::east_opt`,
/// `DateTime::from_timestamp`, `with_timezone`) and writes it with
/// `DateTime::format(format)`. Claims only that the outcome is
/// `strftime(instant, format)`; a pattern that `chrono` cannot format gives `None`
/// (the `write!` error), not a panic.
#[verifier::external_body]
pub(crate) fn format_instant(instant: (i64, u32, i32), format: &str) -> (text: Option<String>)
    ensures
        match text {
            Some(t) => strftime(instant, format@) == Some(t@),
            None => strftime(instant, format@) is None,
        },
{
    let offset = FixedOffset::east_opt(instant.2)?;
    let utc = DateTime::from_timestamp(instant.0, instant.1)?;
    let mut out = String::new();
    write!(out, "{}", utc.with_timezone(&offset).format(format)).ok()?;
    Some(out)
}

/// Calls `chrono::DateTime::from_timestamp(secs, nanos)` and, on success,
/// `to_rfc3339` on the UTC instant. Claims only that the outcome is
/// `utc_rfc3339(secs, nanos)`.
#[verifier::external_body]
pub(crate) fn unix_to_rfc3339(secs: i64, nanos: u32) -> (text: Option<String>)
    ensures
        match text {
            Some(t) => utc_rfc3339(secs, nanos) == Some(t@),
            None => utc_rfc3339(secs, nanos) is None,
        },
{
    match DateTime::from_timestamp(secs, nanos) {
        Some(utc) => Some(utc.to_rfc3339()),
        None => None,
    }
}

} // verus!
