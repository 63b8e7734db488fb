//! Points in UTC time, as the seconds and nanoseconds that `chrono` reports.
use vstd::prelude::*;
use chrono::DateTime;

verus! {

/// A point in UTC time: whole seconds since the Unix epoch, and the
/// nanoseconds past that second (at least one second's worth only during a
/// leap second, as `chrono` represents it).
#[derive(Debug, Clone, Copy, PartialEq, Eq, Hash, Structural)]
pub struct Timestamp {
    pub secs: i64,
    pub nanos: u32,
}

impl Timestamp {
    /// `self` is the same moment as `other` or an earlier one.
    pub open spec fn no_later_than(self, other: Timestamp) -> bool {
        self.secs < other.secs || (self.secs == other.secs && self.nanos <= other.nanos)
    }

    /// Whether `self` is the same moment as `other` or an earlier one
    pub fn is_no_later_than(&self, other: &Timestamp) -> (r: bool)
        ensures
            r == self.no_later_than(*other),
    {
        self.secs < other.secs || (self.secs == other.secs && self.nanos <= other.nanos)
    }
}

/// Reads the clock through `chrono::Utc::now()` and hands back its
/// `timestamp()` and `timestamp_subsec_nanos()`. The moment depends on the
/// clock alone, so nothing is stated of it.
#[verifier::external_body]
pub(crate) fn utc_now() -> (t: Timestamp) {
    let now = chrono::Utc::now();
    Timestamp { secs: now.timestamp(), nanos: now.timestamp_subsec_nanos() }
}


/// A moment that chrono holds as is: well inside the years chrono covers
/// (about 262,000 years either side of the epoch) and not in a leap second.
pub open spec fn plain_moment(t: Timestamp) -> bool {
    &&& -8_000_000_000_000 <= t.secs <= 8_000_000_000_000
    &&& t.nanos < 1_000_000_000
}

/// Nanoseconds from `start` to `end` (negative when `end` comes first).
pub open spec fn nanos_between(start: Timestamp, end: Timestamp) -> int {
    (end.secs - start.secs) * 1_000_000_000 + (end.nanos - start.nanos)
}

/// Whole milliseconds in `n` nanoseconds, rounded towards zero.
pub open spec fn millis_toward_zero(n: int) -> int {
    if n >= 0 {
        n / 1_000_000
    } else {
        -((-n) / 1_000_000)
    }
}

/// What chrono gives for the milliseconds from one moment to another
/// (`None` where a moment lies outside chrono's range).
pub uninterp spec fn chrono_millis_between(
    start_secs: i64,
    start_nanos: u32,
    end_secs: i64,
    end_nanos: u32,
) -> Option<i64>;

/// Builds both moments with `chrono::DateTime::from_timestamp` and, when both
/// exist, gives `(end - start).num_milliseconds()`. For moments that chrono
/// holds as is, chrono's subtraction counts the nanoseconds between them and
/// `num_milliseconds` rounds towards zero; around leap seconds chrono's own
/// rules apply, which are left unsaid here.
#[verifier::external_body]
pub(crate) fn millis_between(start: Timestamp, end: Timestamp) -> (r: Option<i64>)
    ensures
        r == chrono_millis_between(start.secs, start.nanos, end.secs, end.nanos),
        plain_moment(start) && plain_moment(end) ==> r == Some(
            millis_toward_zero(nanos_between(start, end)) as i64,
        ),
{
    match (DateTime::from_timestamp(start.secs, start.nanos), DateTime::from_timestamp(end.secs, end.nanos)) {
        (Some(a), Some(b)) => Some((b - a).num_milliseconds()),
        _ => None,
    }
}

} // verus!
