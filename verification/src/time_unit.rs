//! Different resolutions supported by the time related metric types.
//!
//! The integer encoding of each resolution is a wire protocol shared with
//! every host-language binding and must never be renumbered.

use vstd::prelude::*;

use crate::error::{Error, ErrorKind};

verus! {

/// Different resolutions supported by the time related
/// metric types (e.g. a datetime metric).
#[derive(Copy, Clone, Debug, PartialEq, Eq, Structural)]
pub enum TimeUnit {
    /// Truncate to nanosecond precision.
    Nanosecond,
    /// Truncate to microsecond precision.
    Microsecond,
    /// Truncate to millisecond precision.
    Millisecond,
    /// Truncate to second precision.
    Second,
    /// Truncate to minute precision.
    Minute,
    /// Truncate to hour precision.
    Hour,
    /// Truncate to day precision.
    Day,
}

/// The fixed wire encoding of each time unit: its ordinal in the
/// enumeration order, from `Nanosecond` at 0 up to `Day` at 6.
pub open spec fn time_unit_code(unit: TimeUnit) -> int {
    match unit {
        TimeUnit::Nanosecond => 0,
        TimeUnit::Microsecond => 1,
        TimeUnit::Millisecond => 2,
        TimeUnit::Second => 3,
        TimeUnit::Minute => 4,
        TimeUnit::Hour => 5,
        TimeUnit::Day => 6,
    }
}

/// The timestamp-formatting pattern belonging to each resolution: a
/// full date, the time fields that the resolution keeps, and a timezone
/// offset.  Finer fields than the resolution are dropped, never rounded.
pub open spec fn spec_format_pattern(unit: TimeUnit) -> Seq<char> {
    match unit {
        TimeUnit::Nanosecond => "%Y-%m-%dT%H:%M:%S%.f%:z"@,
        TimeUnit::Microsecond => "%Y-%m-%dT%H:%M:%S%.6f%:z"@,
        TimeUnit::Millisecond => "%Y-%m-%dT%H:%M:%S%.3f%:z"@,
        TimeUnit::Second => "%Y-%m-%dT%H:%M:%S%:z"@,
        TimeUnit::Minute => "%Y-%m-%dT%H:%M%:z"@,
        TimeUnit::Hour => "%Y-%m-%dT%H%:z"@,
        TimeUnit::Day => "%Y-%m-%d%:z"@,
    }
}

impl TimeUnit {
    /// How to format a timestamp of this resolution, truncating
    /// the time if needed.
    pub fn format_pattern(self) -> (pattern: &'static str)
        ensures
            pattern@ == spec_format_pattern(self),
    {
        match self {
            TimeUnit::Nanosecond => "%Y-%m-%dT%H:%M:%S%.f%:z",
            TimeUnit::Microsecond => "%Y-%m-%dT%H:%M:%S%.6f%:z",
            TimeUnit::Millisecond => "%Y-%m-%dT%H:%M:%S%.3f%:z",
            TimeUnit::Second => "%Y-%m-%dT%H:%M:%S%:z",
            TimeUnit::Minute => "%Y-%m-%dT%H:%M%:z",
            TimeUnit::Hour => "%Y-%m-%dT%H%:z",
            TimeUnit::Day => "%Y-%m-%d%:z",
        }
    }

    /// Converts an integer value to a `TimeUnit`, as used by the FFI
    /// boundary.  Exactly the codes 0 through 6 convert, each to the
    /// enumeration member at that ordinal; any other value is rejected
    /// with a `TimeUnit` conversion error carrying the offending value.
    pub fn try_from(value: i32) -> (result: Result<TimeUnit, Error>)
        ensures
            0 <= value <= 6 <==> result is Ok,
            result matches Ok(unit) ==> time_unit_code(unit) == value,
            result matches Err(e) ==> e.kind == ErrorKind::TimeUnit(value),
    {
        match value {
            0 => Ok(TimeUnit::Nanosecond),
            1 => Ok(TimeUnit::Microsecond),
            2 => Ok(TimeUnit::Millisecond),
            3 => Ok(TimeUnit::Second),
            4 => Ok(TimeUnit::Minute),
            5 => Ok(TimeUnit::Hour),
            6 => Ok(TimeUnit::Day),
            e => Err(Error::from_kind(ErrorKind::TimeUnit(e))),
        }
    }
}

/// The wire encoding is injective: no two time units share a code, so a
/// code converts back to exactly the unit it came from.
pub proof fn lemma_time_unit_code_injective(a: TimeUnit, b: TimeUnit)
    ensures
        time_unit_code(a) == time_unit_code(b) ==> a == b,
{
}

} // verus!
