//! Points in time.
use vstd::prelude::*;

verus! {

/// A point in time: seconds since the beginning of 1970 in UTC, and nanoseconds.
#[derive(Clone, Copy, Debug, PartialEq, Eq, Structural)]
pub struct Timestamp {
    pub secs: i64,
    pub nanos: u32,
}

impl Timestamp {
    /// Nanoseconds since the beginning of 1970.
    pub open spec fn total_nanos(self) -> int {
        self.secs * 1_000_000_000 + self.nanos
    }

    /// The nanoseconds are less than a second.
    pub open spec fn wf(self) -> bool {
        self.nanos < 1_000_000_000
    }
}

/// The current time by `chrono::Utc::now`, which reads the system clock and panics
/// if that is before 1970: so the time is not before 1970, and its nanoseconds are
/// less than a second. What time it is is not known.
#[verifier::external_body]
pub(crate) fn utc_now() -> (r: Timestamp)
    ensures
        r.wf(),
        r.secs >= 0,
{
    let now = chrono::Utc::now();
    Timestamp { secs: now.timestamp(), nanos: now.timestamp_subsec_nanos() }
}

/// The longest time span that is taken off a point in time, in nanoseconds: the
/// largest number of milliseconds in 63 bits.
pub const LONGEST_STEP: u128 = 9223372036854775807000000;

/// The earliest representable second.
pub const EARLIEST: i64 = -8334601228800;

/// The point in time `elapsed` nanoseconds before `t`; a span that is too long
/// counts as none.
pub open spec fn is_before(r: Timestamp, t: Timestamp, elapsed: u128) -> bool {
    r.wf() && r.total_nanos() == t.total_nanos() - if elapsed <= LONGEST_STEP {
        elapsed as int
    } else {
        0
    }
}

/// Finds the point in time `elapsed` nanoseconds before `t`.
#[must_use]
pub fn before(t: Timestamp, elapsed: u128) -> (r: Timestamp)
    requires
        t.wf(),
        elapsed <= LONGEST_STEP ==> t.total_nanos() - elapsed >= EARLIEST * 1_000_000_000,
    ensures
        is_before(r, t, elapsed),
{
    if elapsed > LONGEST_STEP {
        return t;
    }
    let secs: i64 = (elapsed / 1_000_000_000) as i64;
    let nanos: u32 = (elapsed % 1_000_000_000) as u32;
    if nanos <= t.nanos {
        Timestamp { secs: t.secs - secs, nanos: t.nanos - nanos }
    } else {
        Timestamp { secs: t.secs - secs - 1, nanos: t.nanos + (1_000_000_000 - nanos) }
    }
}

/// A point in time is put back by as long as was asked for, if that can be reckoned with,
/// and not at all otherwise; it is then no later, and still a point in time.
pub proof fn times_are_put_back(r: Timestamp, t: Timestamp, elapsed: u128)
    requires
        is_before(r, t, elapsed),
    ensures
        r.nanos < 1_000_000_000,
        elapsed <= LONGEST_STEP ==> t.total_nanos() - r.total_nanos() == elapsed,
        elapsed > LONGEST_STEP ==> t.total_nanos() == r.total_nanos(),
        r.total_nanos() == r.secs * 1_000_000_000 + r.nanos,
{
}

} // verus!
