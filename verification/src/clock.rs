//! Wall-clock instants as plain numbers, and the idleness rule built on them.
//!
//! The supervisor never reads a clock. Whoever drives it reads the time once
//! per event and hands it in as a [`Timestamp`], so that every decision is a
//! function of its arguments.

use vstd::prelude::*;

verus! {

/// Nanoseconds in one second.
pub const NANOS_PER_SEC: u128 = 1_000_000_000;

/// An instant of the wall clock, counted in nanoseconds from the Unix epoch.
#[derive(Clone, Copy, Debug, PartialEq, Eq, PartialOrd, Ord, Hash, Structural)]
pub struct Timestamp {
    pub nanos: u128,
}

/// The length in nanoseconds of a passivation window given in seconds.
pub open spec fn window_nanos(sleep_after_secs: u64) -> int {
    sleep_after_secs * NANOS_PER_SEC
}

/// The instant before which a last use counts as idle: `now` less the window.
/// It is negative while less than one window has passed since the epoch.
pub open spec fn cutoff_nanos(now: Timestamp, sleep_after_secs: u64) -> int {
    now.nanos - window_nanos(sleep_after_secs)
}

/// Whether a worker last used at `last_used` is idle at `now`: its last use
/// lies strictly before the cutoff. A worker used exactly one window ago is
/// still active.
pub open spec fn idle_at(last_used: Timestamp, now: Timestamp, sleep_after_secs: u64) -> bool {
    last_used.nanos < cutoff_nanos(now, sleep_after_secs)
}

impl Timestamp {
    /// The instant `secs` whole seconds after the epoch.
    pub fn from_secs(secs: u64) -> (t: Timestamp)
        ensures
            t.nanos == secs * NANOS_PER_SEC,
    {
        Timestamp { nanos: (secs as u128) * NANOS_PER_SEC }
    }
}

/// The cutoff of a sweep at `now`, or `None` while the cutoff would lie
/// before the epoch, when no last use can be older than it.
pub fn cutoff(now: Timestamp, sleep_after_secs: u64) -> (c: Option<Timestamp>)
    ensures
        cutoff_nanos(now, sleep_after_secs) >= 0 ==> c == Some(
            Timestamp { nanos: cutoff_nanos(now, sleep_after_secs) as u128 },
        ),
        cutoff_nanos(now, sleep_after_secs) < 0 ==> c.is_none(),
{
    let window: u128 = (sleep_after_secs as u128) * NANOS_PER_SEC;
    if now.nanos >= window {
        Some(Timestamp { nanos: now.nanos - window })
    } else {
        None
    }
}

/// Decides the idleness rule [`idle_at`] for one worker.
pub fn is_idle(last_used: Timestamp, now: Timestamp, sleep_after_secs: u64) -> (idle: bool)
    ensures
        idle == idle_at(last_used, now, sleep_after_secs),
{
    match cutoff(now, sleep_after_secs) {
        Some(c) => last_used.nanos < c.nanos,
        None => false,
    }
}

} // verus!
