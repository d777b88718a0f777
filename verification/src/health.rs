//! Readiness of `dsh web`: a TCP connect is enough to know the socket is
//! bound (the server answers 404 until its SPA fallback registers). The
//! shell polls until the port accepts a connection or the timeout passes.

use vstd::prelude::*;

verus! {

/// Interval between two readiness probes, in milliseconds.
pub const READY_POLL_INTERVAL_MS: u64 = 300;

/// What the readiness poll does after one probe.
#[derive(Clone, Copy, Debug, PartialEq, Eq, Structural)]
pub enum PollStep {
    /// The port accepted a connection: ready.
    Ready,
    /// The deadline passed: not ready.
    TimedOut,
    /// Wait `READY_POLL_INTERVAL_MS` and probe again.
    Retry,
}

/// The decision after one probe: ready as soon as the port is up, else
/// timed out once `now` has reached `deadline`, else retry.
pub fn poll_step(up: bool, now: u64, deadline: u64) -> (r: PollStep)
    ensures
        up ==> r == PollStep::Ready,
        !up && now >= deadline ==> r == PollStep::TimedOut,
        !up && now < deadline ==> r == PollStep::Retry,
{
    if up {
        PollStep::Ready
    } else if now >= deadline {
        PollStep::TimedOut
    } else {
        PollStep::Retry
    }
}

/// A count of milliseconds as a `u64`, saturating at `u64::MAX` (the
/// clock and the timeout of the poll are compared in whole milliseconds).
pub fn saturating_millis(ms: u128) -> (r: u64)
    ensures
        r == (if ms > u64::MAX { u64::MAX as u128 } else { ms }),
{
    if ms > 18446744073709551615u128 {
        18446744073709551615u64
    } else {
        ms as u64
    }
}

} // verus!
