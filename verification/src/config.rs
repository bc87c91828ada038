use vstd::prelude::*;

verus! {

/// Polling cadence of the scanning loop when none is chosen explicitly,
/// in milliseconds.
pub const DEFAULT_REFRESH_MILLIS: u64 = 1000;

/// Configuration of a [`crate::SandClock`](crate::SandClock): the cadence, in
/// milliseconds, at which the scanning cycle is meant to run. The cadence
/// bounds both detection latency (an expiry is noticed at most one refresh
/// interval after it becomes due) and cleanup latency (a reported entry is
/// deleted one further cycle later).
#[derive(Clone, Copy)]
pub struct SandClockConfig {
    refresh_millis: u64,
}

impl SandClockConfig {
    /// The configured cadence, as contracts see it.
    pub closed spec fn spec_refresh_millis(self) -> u64 {
        self.refresh_millis
    }

    /// Creates a configuration with the default cadence.
    pub fn new() -> (c: Self)
        ensures
            c.spec_refresh_millis() == DEFAULT_REFRESH_MILLIS,
    {
        SandClockConfig { refresh_millis: DEFAULT_REFRESH_MILLIS }
    }

    /// The cadence, in milliseconds, at which the scanning cycle runs.
    pub fn get_timer_loop_refreshing_duration(&self) -> (d: u64)
        ensures
            d == self.spec_refresh_millis(),
    {
        self.refresh_millis
    }

    /// Chooses the cadence, in milliseconds, at which the scanning cycle runs.
    pub fn frequency(self, frequence_duration: u64) -> (c: Self)
        ensures
            c.spec_refresh_millis() == frequence_duration,
    {
        SandClockConfig { refresh_millis: frequence_duration }
    }
}

impl Default for SandClockConfig {
    /// Same configuration as [`SandClockConfig::new`].
    fn default() -> (c: Self)
        ensures
            c.spec_refresh_millis() == DEFAULT_REFRESH_MILLIS,
    {
        SandClockConfig { refresh_millis: DEFAULT_REFRESH_MILLIS }
    }
}

} // verus!
