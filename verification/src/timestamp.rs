//! Instants on the time line, and their rendering at a precision.

use vstd::prelude::*;

use crate::precision::Precision;

verus! {

/// The quotient of `a` by `d`, rounded toward zero.
pub open spec fn div_toward_zero(a: int, d: int) -> int {
    if a >= 0 {
        a / d
    } else {
        -((-a) / d)
    }
}

/// An instant: whole seconds since the Unix epoch, and the nanoseconds that
/// have passed since that second began.
#[derive(Debug, Clone, Copy, PartialEq, Eq, Structural)]
pub struct Timestamp {
    pub secs: i64,
    pub nanos: u32,
}

impl Timestamp {
    /// The instant `nanos` nanoseconds after the second `secs`.
    pub fn new(secs: i64, nanos: u32) -> (t: Timestamp)
        ensures
            t.secs == secs,
            t.nanos == nanos,
    {
        Timestamp { secs, nanos }
    }

    /// The instant in nanoseconds since the epoch.
    pub open spec fn nanoseconds(self) -> int {
        self.secs * 1_000_000_000 + self.nanos
    }

    /// The number that stands for the instant at the given precision.
    ///
    /// Nanoseconds give the instant in nanoseconds; microseconds give a
    /// thousand times that; milliseconds give the instant in milliseconds;
    /// seconds, minutes and hours give the whole seconds divided by 1, 60 and
    /// 3600, rounded toward zero.
    pub open spec fn instant(self, precision: Precision) -> int {
        match precision {
            Precision::Nanoseconds => self.nanoseconds(),
            Precision::Microseconds => self.nanoseconds() * 1000,
            Precision::Milliseconds => self.secs * 1000 + self.nanos / 1_000_000,
            Precision::Seconds => self.secs as int,
            Precision::Minutes => div_toward_zero(self.secs as int, 60),
            Precision::Hours => div_toward_zero(self.secs as int, 3600),
        }
    }

    /// Computes the number that stands for the instant at the given
    /// precision. The result is wide enough for every instant.
    pub fn scaled(&self, precision: Precision) -> (n: i128)
        ensures
            n == self.instant(precision),
    {
        let secs: i128 = self.secs as i128;
        let nanos: i128 = self.nanos as i128;
        match precision {
            Precision::Nanoseconds => secs * 1_000_000_000 + nanos,
            Precision::Microseconds => (secs * 1_000_000_000 + nanos) * 1000,
            Precision::Milliseconds => secs * 1000 + nanos / 1_000_000,
            Precision::Seconds => secs,
            Precision::Minutes => secs / 60,
            Precision::Hours => secs / 3600,
        }
    }
}

} // verus!
