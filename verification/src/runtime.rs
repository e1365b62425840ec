//! Whether the web frontend is being used: the time it was last seen, on a
//! monotonic millisecond clock that the caller reads.

use vstd::prelude::*;

verus! {

/// When the frontend was last seen.
pub struct FrontendRuntime {
    pub last_seen: Option<u64>,
}

/// The frontend was seen at most `timeout` before `now` (time running
/// backwards counts as no time).
pub open spec fn seen_within(last_seen: Option<u64>, now: u64, timeout: u64) -> bool {
    match last_seen {
        Some(t) => (if now >= t {
            now - t
        } else {
            0
        }) <= timeout,
        None => false,
    }
}

impl FrontendRuntime {
    /// Never seen.
    pub fn new() -> (r: Self)
        ensures
            r.last_seen is None,
    {
        FrontendRuntime { last_seen: None }
    }

    /// The frontend is seen at `now`.
    pub fn mark_seen(&mut self, now: u64)
        ensures
            final(self).last_seen == Some(now),
    {
        self.last_seen = Some(now);
    }

    /// The frontend was seen within `timeout` milliseconds before `now`.
    pub fn is_recent(&self, now: u64, timeout: u64) -> (r: bool)
        ensures
            r == seen_within(self.last_seen, now, timeout),
    {
        match self.last_seen {
            Some(t) => {
                let elapsed = if now >= t {
                    now - t
                } else {
                    0
                };
                elapsed <= timeout
            },
            None => false,
        }
    }
}

/// Just after being seen, the frontend counts as recent for any timeout.
pub proof fn lemma_recent_after_seen(now: u64, timeout: u64)
    ensures
        seen_within(Some(now), now, timeout),
{
}

/// A frontend recent within a timeout is recent within any longer one.
pub proof fn lemma_recent_monotone(last_seen: Option<u64>, now: u64, t1: u64, t2: u64)
    requires
        t1 <= t2,
        seen_within(last_seen, now, t1),
    ensures
        seen_within(last_seen, now, t2),
{
}

} // verus!
