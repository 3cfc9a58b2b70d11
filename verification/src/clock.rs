//! Wall-clock timestamps, read and printed with `chrono`.

use vstd::prelude::*;

verus! {

/// A UTC instant: whole seconds since 1970-01-01T00:00:00Z and the
/// nanoseconds within that second.
#[derive(Debug, Clone, Copy, PartialEq, Eq)]
pub struct UtcTime {
    pub secs: i64,
    pub nanos: u32,
}

/// The current time in UTC.
///
/// Trusted: calls `chrono::Utc::now` and reads its seconds and subsecond
/// nanoseconds. The value depends on the system clock; what is stated is
/// what chrono's source shows of every value it returns: `now` takes the
/// duration since 1970 from the system clock (panicking before 1970), so
/// the seconds are not negative, and the nanoseconds are those within one
/// second.
#[verifier::external_body]
pub fn utc_now() -> (t: UtcTime)
    ensures
        t.secs >= 0,
        t.nanos < 1_000_000_000,
{
    let now = chrono::Utc::now();
    UtcTime { secs: now.timestamp(), nanos: now.timestamp_subsec_nanos() }
}

/// The RFC 3339 text that chrono prints for the instant `secs`/`nanos`, or
/// `None` where chrono has no `DateTime` for it.
pub uninterp spec fn rfc3339_text(secs: i64, nanos: u32) -> Option<Seq<char>>;

/// The RFC 3339 text of a UTC instant.
///
/// Trusted: builds the instant with `chrono::DateTime::from_timestamp` and
/// prints it with `to_rfc3339`. The result is named by `rfc3339_text`, a
/// function of the two numbers alone.
#[verifier::external_body]
pub fn rfc3339(t: UtcTime) -> (r: Option<String>)
    ensures
        r matches Some(s) ==> rfc3339_text(t.secs, t.nanos) == Some(s@),
        r is None ==> rfc3339_text(t.secs, t.nanos) is None,
{
    match chrono::DateTime::from_timestamp(t.secs, t.nanos) {
        Some(d) => Some(d.to_rfc3339()),
        None => None,
    }
}

} // verus!
