//! Wall-clock readings and the durations between them.

use vstd::prelude::*;

verus! {

/// Nanoseconds in one second.
pub const NANOS_PER_SEC: i32 = 1_000_000_000;

/// A wall-clock reading: whole seconds since 1970-01-01T00:00:00Z, and the
/// nanoseconds past that second. A reading before the epoch has a negative
/// `sec` and a non-negative `nsec`.
#[derive(Clone, Copy, Debug, PartialEq, Eq, Structural)]
pub struct Timestamp {
    pub sec: i64,
    pub nsec: i32,
}

/// A signed span of time, in nanoseconds.
#[derive(Clone, Copy, Debug, PartialEq, Eq, Structural)]
pub struct Duration {
    pub nanos: i128,
}

impl Timestamp {
    /// The nanoseconds part lies within one second.
    pub open spec fn wf(&self) -> bool {
        0 <= self.nsec < NANOS_PER_SEC
    }

    /// The reading as a number of nanoseconds since the epoch.
    pub open spec fn as_nanos(&self) -> int {
        self.sec * (NANOS_PER_SEC as int) + self.nsec
    }

    /// The time that passed from `earlier` to `self`; negative when the
    /// clock went back. This is the difference that `time` gives for two
    /// `Timespec`s, counted in nanoseconds, which an `i128` always holds.
    pub fn since(&self, earlier: &Timestamp) -> (d: Duration)
        ensures
            d.nanos == self.as_nanos() - earlier.as_nanos(),
    {
        let secs: i128 = self.sec as i128 - earlier.sec as i128;
        let subsec: i128 = self.nsec as i128 - earlier.nsec as i128;
        assert(-0x1_0000_0000_0000_0000 <= secs <= 0x1_0000_0000_0000_0000);
        assert(-0x1_0000_0000_0000_0000 * 1_000_000_000 <= secs * 1_000_000_000
            <= 0x1_0000_0000_0000_0000 * 1_000_000_000) by (nonlinear_arith)
            requires
                -0x1_0000_0000_0000_0000 <= secs <= 0x1_0000_0000_0000_0000,
        ;
        Duration { nanos: secs * (NANOS_PER_SEC as i128) + subsec }
    }
}

/// Relies on `time::get_time`: it builds its result with `Timespec::new`,
/// which panics unless the nanoseconds lie in `0..1_000_000_000`.
#[verifier::external_body]
pub(crate) fn get_time() -> (t: Timestamp)
    ensures
        t.wf(),
{
    let ts = time::get_time();
    Timestamp { sec: ts.sec, nsec: ts.nsec }
}

} // verus!
