//! A reusable "not before time T" gate used to rate-limit repeated side
//! effects such as collision sounds.

use vstd::prelude::*;

verus! {

/// A cooldown that lasts until an absolute simulation time, in
/// milliseconds since startup.
#[derive(Clone, Copy, Debug, PartialEq, Eq, Structural)]
pub struct Cooldown {
    pub until_time: i64,
}

impl Cooldown {
    /// The cooldown has elapsed at time `now`.
    pub fn over(&self, now: i64) -> (r: bool)
        ensures
            r == (now > self.until_time),
    {
        now > self.until_time
    }

    /// A cooldown lasting `duration` milliseconds from `now`.
    pub fn create(now: i64, duration: i64) -> (c: Cooldown)
        requires
            now + duration <= i64::MAX,
            i64::MIN <= now + duration,
        ensures
            c.until_time == now + duration,
    {
        Cooldown { until_time: now + duration }
    }

    /// Restart the cooldown for `duration` milliseconds from `now`.
    pub fn reset(&mut self, now: i64, duration: i64)
        requires
            now + duration <= i64::MAX,
            i64::MIN <= now + duration,
        ensures
            final(self).until_time == now + duration,
    {
        *self = Self::create(now, duration)
    }
}

impl Default for Cooldown {
    /// A cooldown that has already elapsed at any non-negative time.
    fn default() -> (c: Cooldown)
        ensures
            c.until_time == 0,
    {
        Cooldown { until_time: 0 }
    }
}

} // verus!
