use vstd::prelude::*;

verus! {

/// Granularity that scales a duration's integer count to elapsed time.
#[derive(Clone, Copy, Debug, PartialEq, Eq, Structural)]
pub enum TimeUnit {
    Milliseconds,
    Microseconds,
    Nanoseconds,
}

/// Logical dtype tags the dispatcher recognises. A duration column's physical
/// buffer is always `Int64`; the tag decides how operations treat it.
#[derive(Clone, Debug, PartialEq, Eq)]
pub enum DataType {
    Int32,
    Int64,
    /// Carried by columns whose numeric payload lives in the external float
    /// engine; this core only tracks their shape and null structure.
    Float64,
    /// A day count stored as a nullable 32-bit integer.
    Date,
    /// An instant: a count in the given unit, with an optional time zone name.
    Datetime(TimeUnit, Option<String>),
    Duration(TimeUnit),
}

/// Ticks of `unit` in one day: the divisor for duration-plus-date addition.
pub open spec fn spec_ticks_per_day(unit: TimeUnit) -> i64 {
    match unit {
        TimeUnit::Milliseconds => 86_400_000,
        TimeUnit::Microseconds => 86_400_000_000,
        TimeUnit::Nanoseconds => 86_400_000_000_000,
    }
}

pub fn ticks_per_day(unit: TimeUnit) -> (r: i64)
    ensures
        r == spec_ticks_per_day(unit),
        r > 0,
{
    match unit {
        TimeUnit::Milliseconds => 86_400_000,
        TimeUnit::Microseconds => 86_400_000_000,
        TimeUnit::Nanoseconds => 86_400_000_000_000,
    }
}

/// Nanoseconds in one tick of `unit`: the common scale that orders the units
/// and yields the conversion factor between any two of them.
pub open spec fn nanos_per_tick(unit: TimeUnit) -> int {
    match unit {
        TimeUnit::Milliseconds => 1_000_000,
        TimeUnit::Microseconds => 1_000,
        TimeUnit::Nanoseconds => 1,
    }
}

} // verus!
