//! Auto-advance ("pageant") timer: a toggleable periodic trigger.
//!
//! Time is passed in by the caller as milliseconds, so the timer's behaviour
//! is a function of its arguments alone and can be exercised with simulated
//! clocks.

use vstd::prelude::*;

verus! {

/// Milliseconds each image stays visible while the timer is armed.
pub const PAGEANT_INTERVAL_MS: u64 = 1000;

/// Auto-advance mode: armed iff `instant` holds the time (in milliseconds) of
/// the last trigger.
#[derive(Debug, Copy, Clone)]
pub struct PageantMode {
    /// Milliseconds each image will remain visible.
    pub timeout: u64,
    /// Time of the last update, in milliseconds; `None` while disarmed.
    pub instant: Option<u64>,
}

impl PageantMode {
    /// A disarmed timer with the fixed interval.
    pub fn new() -> (r: Self)
        ensures
            r.timeout == PAGEANT_INTERVAL_MS,
            r.instant is None,
    {
        Self { timeout: PAGEANT_INTERVAL_MS, instant: None }
    }

    /// Flip the armed state; arming records `now` as the last trigger time.
    pub fn toggle(&mut self, now: u64)
        ensures
            old(self).instant is Some ==> final(self).instant is None,
            old(self).instant is None ==> final(self).instant == Some(now),
            final(self).timeout == old(self).timeout,
    {
        if let Some(_instant) = self.instant {
            self.instant = None;
        } else {
            self.instant = Some(now);
        }
    }

    /// Record `now` as the last trigger time without changing the armed state
    /// of a disarmed timer.
    pub fn set_instant(&mut self, now: u64)
        ensures
            final(self).instant == Some(now),
            final(self).timeout == old(self).timeout,
    {
        self.instant = Some(now);
    }

    /// True iff the timer is armed and at least `timeout` milliseconds have
    /// passed since the last trigger.
    pub fn should_update(&self, now: u64) -> (r: bool)
        ensures
            r == self.fires_at(now),
    {
        if let Some(instant) = self.instant {
            now >= instant && now - instant >= self.timeout
        } else {
            false
        }
    }

    /// When the timer fires: armed, and `now` is at least `timeout` past the
    /// recorded trigger time.
    pub open spec fn fires_at(self, now: u64) -> bool {
        match self.instant {
            Some(instant) => now >= instant && now - instant >= self.timeout,
            None => false,
        }
    }
}

/// Arming the timer at `now` never fires immediately, and fires once `later`
/// is at least the interval past `now`, with no toggle or reset in between.
pub proof fn lemma_pageant_timing(p0: PageantMode, now: u64, later: u64)
    requires
        p0.instant is None,
        p0.timeout > 0,
    ensures
        ({
            let armed = PageantMode { instant: Some(now), ..p0 };
            &&& !armed.fires_at(now)
            &&& (later >= now && later - now >= p0.timeout ==> armed.fires_at(later))
        }),
{
}

} // verus!
