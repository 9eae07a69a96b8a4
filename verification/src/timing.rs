//! The protocol's time constants, in milliseconds of the monotonic clock.

use vstd::prelude::*;

verus! {

/// Period of the leader's heartbeat.
pub const HEARTBEAT_INTERVAL_MS: u64 = 2000;

/// A follower that has heard no heartbeat for longer than this suspects the leader.
pub const FAILURE_TIMEOUT_MS: u64 = 5000;

/// Period of a follower's check on the leader.
pub const LIVENESS_INTERVAL_MS: u64 = 1000;

/// How long a candidate waits for a reply from the higher peers.
pub const ELECTION_WAIT_MS: u64 = 1500;

/// How long a candidate waits for the designated successor alone.
pub const SUCCESSOR_WAIT_MS: u64 = 800;

/// How long a starting node waits for an answer to its discovery probe.
pub const DISCOVERY_WAIT_MS: u64 = 2000;

/// A peer counts as alive while it was last seen within this window (two heartbeat periods).
pub const ALIVE_WINDOW_MS: u64 = 4000;

/// Cadence on which missing connections are dialled again.
pub const RECONNECT_INTERVAL_MS: u64 = 2000;

/// A reading of the two clocks a node uses: the monotonic one that drives
/// every deadline, and the wall clock that only stamps outgoing messages.
#[derive(Clone, Copy, PartialEq, Eq, Debug, Structural)]
pub struct Moment {
    /// Milliseconds on the monotonic clock.
    pub mono_ms: u64,
    /// Seconds since the epoch; informational.
    pub unix_secs: u64,
}

/// Time that passed from `since` to `now`; zero if the clock reads earlier than `since`.
pub open spec fn elapsed(since: u64, now: u64) -> int {
    if now >= since {
        now - since
    } else {
        0
    }
}

/// The instant `wait` milliseconds after `now`, capped at the end of the clock's range.
pub open spec fn deadline_after(now: u64, wait: u64) -> u64 {
    if now + wait > u64::MAX {
        u64::MAX
    } else {
        (now + wait) as u64
    }
}

/// Computes [`elapsed`].
pub fn elapsed_ms(since: u64, now: u64) -> (e: u64)
    ensures
        e == elapsed(since, now),
{
    now.saturating_sub(since)
}

/// Computes [`deadline_after`].
pub fn deadline(now: u64, wait: u64) -> (d: u64)
    ensures
        d == deadline_after(now, wait),
{
    now.saturating_add(wait)
}

} // verus!
