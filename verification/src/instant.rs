//! Instants: what a timestamp says when it is read as RFC 3339, and the
//! clock that stamps new entries.

use vstd::prelude::*;

verus! {

/// A point in time: whole seconds since the start of 1970 in UTC, and the
/// nanoseconds since that second began.
#[derive(Debug, Clone, Copy, PartialEq, Eq, Structural)]
pub struct Instant {
    pub secs: i64,
    pub nanos: u32,
}

impl Instant {
    /// Whether `self` is later than `other`.
    pub open spec fn later_than(self, other: Instant) -> bool {
        self.secs > other.secs || (self.secs == other.secs && self.nanos > other.nanos)
    }

    /// Tests whether `self` is later than `other`.
    pub fn is_later_than(&self, other: &Instant) -> (r: bool)
        ensures
            r == self.later_than(*other),
    {
        self.secs > other.secs || (self.secs == other.secs && self.nanos > other.nanos)
    }
}

/// The instant that a text denotes when it is read as an RFC 3339 date and
/// time: seconds and nanoseconds as in `Instant`, or nothing where the text is
/// no such date and time.
pub uninterp spec fn rfc3339_instant(s: Seq<char>) -> Option<(i64, u32)>;

/// What a text denotes as an instant.
pub open spec fn instant_of(s: Seq<char>) -> Option<Instant> {
    match rfc3339_instant(s) {
        Some((secs, nanos)) => Some(Instant { secs, nanos }),
        None => None,
    }
}

/// Calls `chrono::DateTime::parse_from_rfc3339` and takes from the date and
/// time that it returns its `timestamp` and its `timestamp_subsec_nanos`. The
/// contract claims that the outcome depends on the characters of `s` alone; a
/// text that chrono rejects gives `None`.
#[verifier::external_body]
pub(crate) fn parse_rfc3339(s: &str) -> (r: Option<(i64, u32)>)
    ensures
        r == rfc3339_instant(s@),
{
    match chrono::DateTime::parse_from_rfc3339(s) {
        Ok(at) => Some((at.timestamp(), at.timestamp_subsec_nanos())),
        Err(_) => None,
    }
}

/// Reads a timestamp as an instant.
pub fn read_instant(s: &str) -> (r: Option<Instant>)
    ensures
        r == instant_of(s@),
{
    match parse_rfc3339(s) {
        Some((secs, nanos)) => Some(Instant { secs, nanos }),
        None => None,
    }
}

/// The characters that a timestamp is written with: digits, the hyphen,
/// `T`, the colon, the full stop, the plus sign and `Z`.
pub open spec fn stamp_char(c: char) -> bool {
    ('0' <= c <= '9') || c == '-' || c == 'T' || c == ':' || c == '.' || c == '+' || c == 'Z'
}

/// Whether the text is written with the characters of a timestamp alone.
pub open spec fn stamp_text(s: Seq<char>) -> bool {
    forall|i: int| 0 <= i < s.len() ==> stamp_char(#[trigger] s[i])
}

/// Calls `chrono::Local::now` and writes the date and time with
/// `to_rfc3339_opts`, with milliseconds. Which instant the text names depends
/// on the clock and on the time zone of the machine; the contract claims only
/// what chrono writes of every instant: digits, hyphens, `T`, colons, a full
/// stop, and a sign or `Z` for the offset.
#[verifier::external_body]
pub(crate) fn local_timestamp() -> (r: String)
    ensures
        stamp_text(r@),
{
    chrono::Local::now().to_rfc3339_opts(chrono::SecondsFormat::Millis, true)
}

/// Calls `chrono::Utc::now` and writes the date and time with `format`, as
/// year, month, day, hour, minute and second. Nothing is claimed of the text:
/// it depends on the clock.
#[verifier::external_body]
pub(crate) fn utc_timestamp() -> (r: String) {
    chrono::Utc::now().format("%Y-%m-%d %H:%M:%S").to_string()
}

} // verus!
