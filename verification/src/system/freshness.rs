//! When a reading of the machine may be reused.
//!
//! Reading the volumes, the user list or the process table costs real time, and a monitor
//! asks for them every few seconds; so each reading is kept and reused until it is older than
//! its time to live. Removing files makes the free-space figure wrong at once, so that reading
//! can also be dropped on purpose. Times are milliseconds on a clock that never goes back.

use vstd::prelude::*;

verus! {

/// How long a reading of the attached volumes is reused. Free space barely moves between two
/// readings a few seconds apart, except right after a cleanup, which invalidates the reading.
pub const DISK_TTL_MS: u64 = 10_000;

/// How long the user list, read to name the owner of a process, is reused.
pub const USERS_TTL_MS: u64 = 60_000;

/// How long a walk of the process table is reused for the process count.
pub const PROCESS_COUNT_TTL_MS: u64 = 4_000;

/// When something was last read, if it has been read since it was last invalidated.
#[derive(Debug, Clone, Copy, PartialEq, Eq, Structural)]
pub struct Reading {
    pub at: Option<u64>,
}

/// How long ago `at` was, at `now`; a clock reading that seems to come before `at` counts as
/// no time at all.
pub open spec fn elapsed(at: u64, now: u64) -> int {
    if now >= at {
        now - at
    } else {
        0
    }
}

/// Whether a reading can be reused at `now`.
pub open spec fn is_fresh(r: Reading, now: u64, ttl: u64) -> bool {
    match r.at {
        Some(at) => elapsed(at, now) < ttl,
        None => false,
    }
}

impl Reading {
    /// Nothing read yet.
    pub fn new() -> (r: Self)
        ensures
            r.at is None,
    {
        Reading { at: None }
    }

    /// Whether what was read can be reused at `now`, given its time to live.
    pub fn fresh(&self, now: u64, ttl: u64) -> (r: bool)
        ensures
            r == is_fresh(*self, now, ttl),
    {
        match self.at {
            Some(at) => now.saturating_sub(at) < ttl,
            None => false,
        }
    }

    /// A new reading was taken at `now`.
    pub fn mark(&mut self, now: u64)
        ensures
            final(self).at == Some(now),
    {
        self.at = Some(now);
    }

    /// The next request reads again, whatever the time.
    pub fn invalidate(&mut self)
        ensures
            final(self).at is None,
    {
        self.at = None;
    }
}

/// A reading just taken is reused until its time to live runs out, and one that was
/// invalidated is never reused.
pub proof fn lemma_reading_lifetime(now: u64, later: u64, ttl: u64)
    requires
        now <= later,
    ensures
        is_fresh(Reading { at: Some(now) }, later, ttl) <==> later - now < ttl,
        !is_fresh(Reading { at: None }, later, ttl),
{
}

} // verus!
