//! Points in time, as whole seconds and nanoseconds since the Unix epoch (UTC).
use vstd::prelude::*;

verus! {

/// Earliest second that a UTC date-time can hold (January 1, 262144 BCE).
pub const MIN_TIMESTAMP_SECS: i64 = -8_334_601_315_200;
/// Latest second that a UTC date-time can hold (December 31, 262142 CE, 23:59:59).
pub const MAX_TIMESTAMP_SECS: i64 = 8_210_266_876_799;
/// Nanoseconds in a second.
pub const NANOS_PER_SEC: u32 = 1_000_000_000;

/// A UTC instant: seconds since the Unix epoch and the nanoseconds within that second.
#[derive(Debug, Clone, Copy, PartialEq, Eq, Structural)]
pub struct Timestamp {
    pub secs: i64,
    pub nanos: u32,
}

impl Timestamp {
    /// The instant lies in the range of UTC date-times. Nanoseconds from one to two seconds
    /// mark a leap second, which only the last second of a minute can carry.
    pub open spec fn valid(self) -> bool {
        &&& MIN_TIMESTAMP_SECS <= self.secs <= MAX_TIMESTAMP_SECS
        &&& (self.nanos < NANOS_PER_SEC || (self.nanos < 2 * NANOS_PER_SEC && self.secs % 60 == 59))
    }

    /// Whether the instant lies in the range of UTC date-times, a leap second included.
    pub fn is_valid(&self) -> (b: bool)
        ensures
            b == self.valid(),
    {
        if self.secs < MIN_TIMESTAMP_SECS || self.secs > MAX_TIMESTAMP_SECS {
            return false;
        }
        if self.nanos < NANOS_PER_SEC {
            return true;
        }
        let shifted: u64 = (self.secs - MIN_TIMESTAMP_SECS) as u64;
        proof {
            vstd::arithmetic::div_mod::lemma_mod_multiples_vanish(138_910_021_920, self.secs as int, 60);
            assert(shifted == 60 * 138_910_021_920 + self.secs);
        }
        self.nanos < 2 * NANOS_PER_SEC && shifted % 60 == 59
    }

    /// `self` is strictly earlier than `other`.
    pub open spec fn earlier(self, other: Timestamp) -> bool {
        self.secs < other.secs || (self.secs == other.secs && self.nanos < other.nanos)
    }

    /// Whether `self` is strictly earlier than `other`.
    pub fn is_earlier(&self, other: &Timestamp) -> (b: bool)
        ensures
            b == self.earlier(*other),
    {
        self.secs < other.secs || (self.secs == other.secs && self.nanos < other.nanos)
    }
}

/// `chrono::Utc::now`, read as seconds and nanoseconds since the epoch. The value depends on
/// the clock; what holds of every outcome is that it is a valid instant at or after the epoch.
#[verifier::external_body]
pub(crate) fn now() -> (t: Timestamp)
    ensures
        t.valid(),
        t.secs >= 0,
{
    let n = chrono::Utc::now();
    Timestamp { secs: n.timestamp(), nanos: n.timestamp_subsec_nanos() }
}

/// The RFC 3339 text that chrono renders for the UTC instant `secs`, `nanos`.
pub uninterp spec fn rfc3339_text(secs: i64, nanos: u32) -> Seq<char>;

/// `chrono::DateTime::<Utc>::to_rfc3339` of the instant `t` (built by
/// `DateTime::from_timestamp`, which succeeds on valid instants); the text depends on `t` alone.
#[verifier::external_body]
pub(crate) fn to_rfc3339(t: Timestamp) -> (s: String)
    requires
        t.valid(),
    ensures
        s@ == rfc3339_text(t.secs, t.nanos),
{
    match chrono::DateTime::from_timestamp(t.secs, t.nanos) {
        Some(d) => d.to_rfc3339(),
        None => String::new(),
    }
}

} // verus!
