use vstd::prelude::*;

verus! {

/// A point in time as seconds since the Unix epoch (UTC) and the nanoseconds
/// past that second (which exceed 999,999,999 only inside a leap second).
#[derive(Clone, Copy, Debug, PartialEq, Eq, Structural)]
pub struct Timestamp {
    pub secs: i64,
    pub nanos: u32,
}

/// The instant an RFC 3339 date-time denotes, as (seconds since the epoch,
/// nanoseconds past that second), or `None` where the text is not one.
pub uninterp spec fn rfc3339_instant(s: Seq<char>) -> Option<(i64, u32)>;

/// Relies on chrono's `DateTime::parse_from_rfc3339`, read back through
/// `timestamp` and `timestamp_subsec_nanos`: the result depends on the text
/// alone.
#[verifier::external_body]
fn rfc3339_parts(s: &str) -> (r: Option<(i64, u32)>)
    ensures
        r == rfc3339_instant(s@),
{
    match chrono::DateTime::parse_from_rfc3339(s) {
        Ok(d) => Some((d.timestamp(), d.timestamp_subsec_nanos())),
        Err(_) => None,
    }
}

/// The timestamp an RFC 3339 date-time denotes.
pub open spec fn timestamp_of_rfc3339(s: Seq<char>) -> Option<Timestamp> {
    match rfc3339_instant(s) {
        Some(p) => Some(Timestamp { secs: p.0, nanos: p.1 }),
        None => None,
    }
}

impl Timestamp {
    /// Chronological order: `self` is not later than `other`.
    pub open spec fn no_later_than(self, other: Timestamp) -> bool {
        self.secs < other.secs || (self.secs == other.secs && self.nanos <= other.nanos)
    }

    pub fn is_no_later_than(&self, other: &Timestamp) -> (r: bool)
        ensures
            r == self.no_later_than(*other),
    {
        self.secs < other.secs || (self.secs == other.secs && self.nanos <= other.nanos)
    }

    /// The later of two timestamps.
    pub open spec fn latest(self, other: Timestamp) -> Timestamp {
        if self.no_later_than(other) {
            other
        } else {
            self
        }
    }

    pub fn later_of(self, other: Timestamp) -> (r: Timestamp)
        ensures
            r == self.latest(other),
    {
        if self.is_no_later_than(&other) {
            other
        } else {
            self
        }
    }

    /// Reads an RFC 3339 date-time (any offset) as the instant it denotes.
    pub fn from_rfc3339(s: &str) -> (r: Option<Timestamp>)
        ensures
            r == timestamp_of_rfc3339(s@),
    {
        match rfc3339_parts(s) {
            Some(p) => Some(Timestamp { secs: p.0, nanos: p.1 }),
            None => None,
        }
    }
}

} // verus!
