//! The refresh scheduler: a pure predicate that throttles snapshot pulls.
//!
//! Enumerating every process is expensive compared with a rendered frame, so
//! the viewer polls the provider at most once per interval.  The caller keeps
//! the clock: it passes the current instant and the instant of the last
//! refresh, both as milliseconds on a monotonic clock, and on a `true` answer
//! it must pull a fresh snapshot and record the new refresh instant itself.

use vstd::prelude::*;

verus! {

/// The default refresh interval, in milliseconds.
pub const DEFAULT_REFRESH_INTERVAL_MS: u64 = 1000;

/// Decides whether a new snapshot is due: true iff at least `interval_ms`
/// milliseconds have passed since the last refresh.  A pure time comparison
/// with no side effects; it never fails.
pub fn maybe_refresh(now_ms: u64, last_refresh_ms: u64, interval_ms: u64) -> (r: bool)
    requires
        last_refresh_ms <= now_ms,
    ensures
        r == (now_ms - last_refresh_ms >= interval_ms),
{
    now_ms - last_refresh_ms >= interval_ms
}

} // verus!
