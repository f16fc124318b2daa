//! Wall-clock timestamps.

use vstd::prelude::*;

verus! {

/// A point in time, as its distance from the Unix epoch.
#[derive(Debug, Clone, Copy, PartialEq, Eq)]
pub struct Timestamp {
    /// Whole seconds of the distance from the epoch.
    pub secs: u64,
    /// The rest of the distance, in nanoseconds (below one billion).
    pub nanos: u32,
    /// The point lies that far before the epoch rather than after it.
    pub before_epoch: bool,
}

/// The point is not earlier than the Unix epoch.
pub open spec fn not_before_epoch(t: Timestamp) -> bool {
    t.before_epoch ==> t.secs == 0 && t.nanos == 0
}

impl Timestamp {
    /// The point is earlier than the Unix epoch.
    pub fn is_before_epoch(&self) -> (b: bool)
        ensures
            b == !not_before_epoch(*self),
    {
        self.before_epoch && (self.secs != 0 || self.nanos != 0)
    }
}

/// Trusted: `std::time::SystemTime::elapsed` on `UNIX_EPOCH`, read as
/// plain values: whether the clock reads at or after the epoch, and the
/// distance in whole seconds and nanoseconds. An `Ok` gives that distance
/// (`Duration::as_secs`, `Duration::subsec_nanos`); an `Err` gives how far
/// before the epoch the clock reads (`SystemTimeError::duration`). The one
/// thing stated is the documented bound on `subsec_nanos`; the reading
/// itself comes from the machine's clock.
#[verifier::external_body]
fn clock_reading() -> (r: (bool, u64, u32))
    ensures
        r.2 < 1_000_000_000,
{
    match std::time::UNIX_EPOCH.elapsed() {
        Ok(d) => (true, d.as_secs(), d.subsec_nanos()),
        Err(e) => (false, e.duration().as_secs(), e.duration().subsec_nanos()),
    }
}

/// The timestamp of a clock reading: at or after the epoch by `secs`
/// seconds and `nanos` nanoseconds, or that far before it.
pub fn timestamp_of_reading(after: bool, secs: u64, nanos: u32) -> (t: Timestamp)
    requires
        nanos < 1_000_000_000,
    ensures
        t == (Timestamp { secs, nanos, before_epoch: !after }),
{
    Timestamp { secs, nanos, before_epoch: !after }
}

/// The current wall-clock time. A clock set before the epoch gives a point
/// before the epoch.
pub fn now() -> (t: Timestamp)
    ensures
        t.nanos < 1_000_000_000,
{
    let (after, secs, nanos) = clock_reading();
    timestamp_of_reading(after, secs, nanos)
}

} // verus!
