//! The texts of points in time. Reading a clock is left to the caller, who hands
//! over seconds and nanoseconds since 1970 in UTC.

use vstd::prelude::*;
use crate::text::opt;

verus! {

/// A point in time as `chrono` writes it under `%Y-%m-%dT%H:%M:%S%.3fZ`; `None`
/// where `chrono` has no such time.
pub uninterp spec fn iso_text(seconds: i64, nanos: u32) -> Option<Seq<char>>;

/// A point in time as `chrono`'s `to_rfc3339` writes it.
pub uninterp spec fn rfc3339_text(seconds: i64, nanos: u32) -> Option<Seq<char>>;

/// The day of a point in time as `chrono` writes it under `%Y-%m-%d`, for a place
/// that is `offset` seconds ahead of UTC.
pub uninterp spec fn day_text(seconds: i64, offset: i32) -> Option<Seq<char>>;

/// `chrono::DateTime::from_timestamp` and `format`: what comes back depends on the
/// arguments alone. It is a text exactly where the arguments are in `chrono`'s
/// range.
#[verifier::external_body]
fn chrono_iso(seconds: i64, nanos: u32) -> (r: Option<String>)
    ensures
        opt(r) == iso_text(seconds, nanos),
{
    chrono::DateTime::from_timestamp(seconds, nanos).map(
        |t| t.format("%Y-%m-%dT%H:%M:%S%.3fZ").to_string())
}

/// `chrono::DateTime::from_timestamp` and `to_rfc3339`: what comes back depends on
/// the arguments alone. It is a text exactly where the arguments are in `chrono`'s
/// range.
#[verifier::external_body]
fn chrono_rfc3339(seconds: i64, nanos: u32) -> (r: Option<String>)
    ensures
        opt(r) == rfc3339_text(seconds, nanos),
{
    chrono::DateTime::from_timestamp(seconds, nanos).map(|t| t.to_rfc3339())
}

/// `chrono::DateTime::from_timestamp`, `with_timezone` and `format`: what comes back
/// depends on the arguments alone. It is a text exactly where the arguments are in
/// `chrono`'s range.
#[verifier::external_body]
fn chrono_day(seconds: i64, offset: i32) -> (r: Option<String>)
    ensures
        opt(r) == day_text(seconds, offset),
{
    let zone = chrono::FixedOffset::east_opt(offset)?;
    let time = chrono::DateTime::from_timestamp(seconds, 0)?;
    Some(time.with_timezone(&zone).format("%Y-%m-%d").to_string())
}

/// The stamp of sessions and messages.
pub fn now_iso(seconds: i64, nanos: u32) -> (r: Option<String>)
    ensures
        opt(r) == iso_text(seconds, nanos),
{
    chrono_iso(seconds, nanos)
}

/// The stamp of runs.
pub fn now_rfc3339(seconds: i64, nanos: u32) -> (r: Option<String>)
    ensures
        opt(r) == rfc3339_text(seconds, nanos),
{
    chrono_rfc3339(seconds, nanos)
}

/// The day, for a place `offset` seconds ahead of UTC.
pub fn local_day(seconds: i64, offset: i32) -> (r: Option<String>)
    ensures
        opt(r) == day_text(seconds, offset),
{
    chrono_day(seconds, offset)
}

} // verus!
