//! Time stamps: the current time as text, and reading a time stamp back.

use vstd::prelude::*;

verus! {

/// The format of every time stamp the judge writes, e.g. `2022-08-27T02:05:29.000Z`.
pub open spec fn time_format() -> Seq<char> {
    "%Y-%m-%dT%H:%M:%S%.3fZ"@
}

/// What `chrono::NaiveDateTime::parse_from_str(s, fmt)` gives, as the parsed
/// time's seconds since 1970 and nanoseconds within the second; `None` where it fails.
pub uninterp spec fn parsed_time(s: Seq<char>, fmt: Seq<char>) -> Option<(i64, u32)>;

/// `a` is an earlier instant than `b`.
pub open spec fn time_lt(a: (i64, u32), b: (i64, u32)) -> bool {
    a.0 < b.0 || (a.0 == b.0 && a.1 < b.1)
}

/// Reads a time stamp with `chrono::NaiveDateTime::parse_from_str(s, fmt)`.
///
/// The contract names the result: the parsed value taken as
/// `(and_utc().timestamp(), and_utc().timestamp_subsec_nanos())`, a pair that
/// orders as the parsed `NaiveDateTime` values do; `None` when parsing fails.
#[verifier::external_body]
pub(crate) fn parse_time(s: &str, fmt: &str) -> (r: Option<(i64, u32)>)
    ensures
        r == parsed_time(s@, fmt@),
{
    match chrono::NaiveDateTime::parse_from_str(s, fmt) {
        Ok(t) => Some((t.and_utc().timestamp(), t.and_utc().timestamp_subsec_nanos())),
        Err(_) => None,
    }
}

/// The current UTC time, `chrono::Utc::now().format(fmt).to_string()`.
///
/// Which time it is depends on the clock and is not stated; what is stated is
/// that the text, written in the judge's format, reads back with that format
/// through `chrono::NaiveDateTime::parse_from_str`. Only the judge's own time
/// format is taken: with a format chrono cannot apply, `to_string` panics.
#[verifier::external_body]
pub(crate) fn current_time(fmt: &str) -> (r: String)
    requires
        fmt@ == time_format(),
    ensures
        parsed_time(r@, time_format()) is Some,
{
    chrono::Utc::now().format(fmt).to_string()
}

/// Compares two instants.
pub fn instant_lt(a: (i64, u32), b: (i64, u32)) -> (r: bool)
    ensures
        r == time_lt(a, b),
{
    a.0 < b.0 || (a.0 == b.0 && a.1 < b.1)
}

} // verus!
