use vstd::prelude::*;

verus! {

/// Abstract state of one table entry: when the key was last touched,
/// on the clock's monotonic millisecond scale, and whether its expiry
/// has already been reported. Contracts throughout the crate speak of
/// entries through this model.
pub struct StatusModel {
    /// Whether the entry's expiry has been reported. Set at most once
    /// per lifecycle and never unset; the entry is deleted one cycle
    /// after it is set.
    pub expired: bool,
    /// The timestamp, in milliseconds, of the most recent touch.
    pub last_update: u64,
}

/// The inactivity clock of one entry: the timestamp of the most recent
/// touch, in milliseconds on the clock's monotonic scale.
#[derive(Clone, Copy)]
pub struct Timer {
    last_update: u64,
}

impl View for Timer {
    type V = u64;

    closed spec fn view(&self) -> u64 {
        self.last_update
    }
}

impl Timer {
    /// A timer that reads `now` as the most recent activity.
    pub fn new(now: u64) -> (t: Self)
        ensures
            t@ == now,
    {
        Timer { last_update: now }
    }

    /// The timestamp of the most recent recorded activity.
    pub fn get_last_instant_update(&self) -> (u: u64)
        ensures
            u == self@,
    {
        self.last_update
    }

    /// Records activity at `now`; the last write wins.
    pub fn update_timer(&mut self, now: u64)
        ensures
            final(self)@ == now,
    {
        self.last_update = now;
    }
}

/// Per-key state held in the timer table: an inactivity [`Timer`] and
/// the flag that records whether this lifecycle's expiry has already
/// been reported.
#[derive(Clone, Copy)]
pub struct TimerStatus {
    expired: bool,
    time_out: Timer,
}

impl View for TimerStatus {
    type V = StatusModel;

    closed spec fn view(&self) -> StatusModel {
        StatusModel { expired: self.expired, last_update: self.time_out@ }
    }
}

impl TimerStatus {
    /// A fresh, unexpired entry whose lifecycle starts at `now`.
    pub fn new(now: u64) -> (s: Self)
        ensures
            s@ == (StatusModel { expired: false, last_update: now }),
    {
        TimerStatus { expired: false, time_out: Timer::new(now) }
    }

    /// Marks the entry expired. Never undone: a later touch of the same
    /// key starts a new entry instead.
    pub fn expired(&mut self)
        ensures
            final(self)@ == (StatusModel { expired: true, last_update: old(self)@.last_update }),
    {
        self.expired = true;
    }

    /// Whether this entry's expiry has already been reported; the
    /// scanning cycle skips such entries.
    pub fn is_expired(&self) -> (r: bool)
        ensures
            r == self@.expired,
    {
        self.expired
    }

    /// Records activity at `now` without touching the expiry flag.
    pub fn time_out_handler(&mut self, now: u64)
        ensures
            final(self)@ == (StatusModel { expired: old(self)@.expired, last_update: now }),
    {
        self.time_out.update_timer(now);
    }

    /// The entry's inactivity timer, for inspection.
    pub fn time_out_info(&self) -> (t: &Timer)
        ensures
            t@ == self@.last_update,
    {
        &self.time_out
    }
}

} // verus!
