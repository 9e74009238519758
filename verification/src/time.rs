//! Durations: an integer count of nanoseconds and the unit it is shown in.

use crate::operations::BinaryOperator;
use vstd::prelude::*;

verus! {

/// The units in which a duration can be written and shown.
#[derive(Debug, PartialEq, Eq, Structural, Copy, Clone)]
pub enum TimeUnit {
    Seconds,
    Microseconds,
    Milliseconds,
    Nanoseconds,
}

impl TimeUnit {
    /// How many nanoseconds one of this unit holds.
    pub open spec fn factor(self) -> int {
        match self {
            TimeUnit::Seconds => 1_000_000_000,
            TimeUnit::Milliseconds => 1_000_000,
            TimeUnit::Microseconds => 1_000,
            TimeUnit::Nanoseconds => 1,
        }
    }

    /// The one spelling under which this unit is shown.
    pub open spec fn suffix(self) -> Seq<char> {
        match self {
            TimeUnit::Seconds => "sec"@,
            TimeUnit::Microseconds => "us"@,
            TimeUnit::Milliseconds => "ms"@,
            TimeUnit::Nanoseconds => "ns"@,
        }
    }

    /// The number of nanoseconds in one of this unit.
    pub fn nanos_per_unit(self) -> (f: i64)
        ensures
            f == self.factor(),
    {
        match self {
            TimeUnit::Seconds => 1_000_000_000,
            TimeUnit::Milliseconds => 1_000_000,
            TimeUnit::Microseconds => 1_000,
            TimeUnit::Nanoseconds => 1,
        }
    }

    /// The text under which this unit is shown: `sec`, `us`, `ms` or `ns`.
    pub fn as_str(self) -> (s: &'static str)
        ensures
            s@ == self.suffix(),
    {
        match self {
            TimeUnit::Seconds => "sec",
            TimeUnit::Microseconds => "us",
            TimeUnit::Milliseconds => "ms",
            TimeUnit::Nanoseconds => "ns",
        }
    }
}

/// What a [`TimeValue`] stands for: an exact count of nanoseconds, and the unit
/// in which that count is shown.
pub struct Duration {
    pub nanos: int,
    pub unit: TimeUnit,
}

/// The nearest value to `x` that a signed 64-bit integer can hold.
pub open spec fn saturate(x: int) -> int {
    if x < i64::MIN {
        i64::MIN as int
    } else if x > i64::MAX {
        i64::MAX as int
    } else {
        x
    }
}

/// The duration of `count` times `unit`. A product beyond the range of a signed
/// 64-bit count of nanoseconds is held at the nearest end of that range.
pub open spec fn duration_of(count: int, unit: TimeUnit) -> Duration {
    Duration { nanos: saturate(count * unit.factor()), unit }
}

/// The duration that `op` makes of `lhs` and `rhs`: the sum or the difference of
/// their nanoseconds, held within the 64-bit range, shown in the unit of `lhs`.
pub open spec fn combine(lhs: Duration, op: BinaryOperator, rhs: Duration) -> Duration {
    match op {
        BinaryOperator::Plus => Duration { nanos: saturate(lhs.nanos + rhs.nanos), unit: lhs.unit },
        BinaryOperator::Minus => Duration { nanos: saturate(lhs.nanos - rhs.nanos), unit: lhs.unit },
    }
}

/// The same duration shown in another unit.
pub open spec fn shown_in(d: Duration, unit: TimeUnit) -> Duration {
    Duration { nanos: d.nanos, unit }
}

/// A duration, stored in nanoseconds whatever unit it is shown in.
#[derive(Debug, PartialEq, Eq, Structural)]
pub struct TimeValue {
    nanoseconds: i64,
    unit: TimeUnit,
}

impl View for TimeValue {
    type V = Duration;

    closed spec fn view(&self) -> Duration {
        Duration { nanos: self.nanoseconds as int, unit: self.unit }
    }
}

impl TimeValue {
    /// The duration of `count` times `unit`, shown in `unit`. The count is
    /// turned into nanoseconds at once; a product that a signed 64-bit integer
    /// cannot hold saturates.
    pub fn new(count: i64, unit: TimeUnit) -> (value: TimeValue)
        ensures
            value@ == duration_of(count as int, unit),
    {
        let factor: i64 = unit.nanos_per_unit();
        let nanoseconds: i64 = match count.checked_mul(factor) {
            Some(product) => product,
            None => {
                assert(count < 0 ==> count * factor <= 0) by (nonlinear_arith)
                    requires
                        factor > 0,
                ;
                assert(count >= 0 ==> count * factor >= 0) by (nonlinear_arith)
                    requires
                        factor > 0,
                ;
                if count < 0 {
                    i64::MIN
                } else {
                    i64::MAX
                }
            },
        };
        TimeValue { nanoseconds, unit }
    }

    /// The unit in which the duration is shown.
    pub fn unit(&self) -> (unit: TimeUnit)
        ensures
            unit == self@.unit,
    {
        self.unit
    }

    /// Adds `rhs` to the duration or takes it away, in nanoseconds and
    /// saturating. The unit in which the duration is shown stays.
    pub fn modify(&mut self, op: BinaryOperator, rhs: TimeValue)
        ensures
            final(self)@ == combine(old(self)@, op, rhs@),
    {
        let lhs: i64 = self.nanoseconds;
        let rhs: i64 = rhs.nanoseconds;
        self.nanoseconds = match op {
            BinaryOperator::Plus => {
                if rhs > 0 && lhs > i64::MAX - rhs {
                    i64::MAX
                } else if rhs < 0 && lhs < i64::MIN - rhs {
                    i64::MIN
                } else {
                    lhs + rhs
                }
            },
            BinaryOperator::Minus => {
                if rhs < 0 && lhs > i64::MAX + rhs {
                    i64::MAX
                } else if rhs > 0 && lhs < i64::MIN + rhs {
                    i64::MIN
                } else {
                    lhs - rhs
                }
            },
        };
    }

    /// Shows the duration in `unit` from now on. The stored nanoseconds stay.
    pub fn change_unit(&mut self, unit: TimeUnit)
        ensures
            final(self)@ == shown_in(old(self)@, unit),
    {
        self.unit = unit;
    }

    /// The duration in nanoseconds.
    pub fn nanos(&self) -> (nanos: i64)
        ensures
            nanos == self@.nanos,
    {
        self.nanoseconds
    }
}

} // verus!
