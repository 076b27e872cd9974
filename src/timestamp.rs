//! Points in time and durations as the log records them.
use crate::binarylog::{PbDuration, PbTimestamp};
use crate::error::EntryError;
use vstd::prelude::*;

verus! {

/// An instant: whole seconds since the Unix epoch and the nanoseconds past
/// them.
#[derive(Debug, Clone, Copy, PartialEq, Eq, Structural)]
pub struct Timestamp {
    pub seconds: i64,
    pub nanos: u32,
}

/// Whether chrono can represent the UTC instant `seconds` + `nanos`.
pub uninterp spec fn utc_representable(seconds: i64, nanos: u32) -> bool;

/// Relies on `chrono::DateTime::<Utc>::from_timestamp`, which returns `None`
/// exactly for the instants it cannot represent.
#[verifier::external_body]
fn utc_instant_exists(seconds: i64, nanos: u32) -> (r: bool)
    ensures
        r == utc_representable(seconds, nanos),
{
    chrono::DateTime::<chrono::Utc>::from_timestamp(seconds, nanos).is_some()
}

impl Timestamp {
    /// `self` is no later than `other`.
    pub open spec fn no_later_than(self, other: Timestamp) -> bool {
        self.seconds < other.seconds || (self.seconds == other.seconds && self.nanos
            <= other.nanos)
    }

    /// The earlier of the two.
    pub fn earlier(self, other: Timestamp) -> (r: Timestamp)
        ensures
            r == (if self.no_later_than(other) {
                self
            } else {
                other
            }),
    {
        if self.seconds < other.seconds || (self.seconds == other.seconds && self.nanos
            <= other.nanos) {
            self
        } else {
            other
        }
    }

    /// The later of the two.
    pub fn later(self, other: Timestamp) -> (r: Timestamp)
        ensures
            r == (if self.no_later_than(other) {
                other
            } else {
                self
            }),
    {
        if self.seconds < other.seconds || (self.seconds == other.seconds && self.nanos
            <= other.nanos) {
            other
        } else {
            self
        }
    }
}

/// The instant of a schema timestamp of `seconds` and signed `nanos`:
/// negative nanoseconds and instants out of chrono's range are errors.
pub open spec fn timestamp_of(seconds: i64, nanos: i32) -> Result<Timestamp, EntryError> {
    if nanos < 0 {
        Err(EntryError::NegativeNanos)
    } else if !utc_representable(seconds, nanos as u32) {
        Err(EntryError::TimestampOutOfRange)
    } else {
        Ok(Timestamp { seconds, nanos: nanos as u32 })
    }
}

/// Converts a schema timestamp into an instant that chrono can represent.
pub fn to_chrono_timestamp(pb_timestamp: PbTimestamp) -> (r: Result<Timestamp, EntryError>)
    ensures
        r == timestamp_of(pb_timestamp.seconds, pb_timestamp.nanos),
{
    let PbTimestamp { seconds, nanos } = pb_timestamp;
    if nanos < 0 {
        return Err(EntryError::NegativeNanos);
    }
    if !utc_instant_exists(seconds, nanos as u32) {
        return Err(EntryError::TimestampOutOfRange);
    }
    Ok(Timestamp { seconds, nanos: nanos as u32 })
}

/// A duration of `seconds` and `nanos` in nanoseconds, where the seconds in
/// nanoseconds and then their sum with `nanos` fit in an `i64`.
pub open spec fn duration_nanos(seconds: i64, nanos: i32) -> Option<i64> {
    let whole = seconds as int * 1_000_000_000;
    let total = whole + nanos as int;
    if whole < i64::MIN || whole > i64::MAX || total < i64::MIN || total > i64::MAX {
        None
    } else {
        Some(total as i64)
    }
}

/// Converts a schema duration into the nanoseconds that a chrono duration
/// holds.
pub fn to_chrono_duration(duration: PbDuration) -> (r: Result<i64, EntryError>)
    ensures
        r == (match duration_nanos(duration.seconds, duration.nanos) {
            Some(n) => Ok(n),
            None => Err(EntryError::DurationOverflow),
        }),
{
    let PbDuration { seconds, nanos } = duration;
    let whole: i128 = seconds as i128 * 1_000_000_000;
    if whole < i64::MIN as i128 || whole > i64::MAX as i128 {
        return Err(EntryError::DurationOverflow);
    }
    let total: i128 = whole + nanos as i128;
    if total < i64::MIN as i128 || total > i64::MAX as i128 {
        return Err(EntryError::DurationOverflow);
    }
    Ok(total as i64)
}

} // verus!
