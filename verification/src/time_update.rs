use vstd::prelude::*;

use crate::sync_insertion::InsertSync;
use crate::sync_insertion::SandClockInsertion;

verus! {

/// The kind of a notification handed to the user's handler.
#[derive(Clone, Copy, Debug, PartialEq, Eq, Structural)]
pub enum ClockEvent {
    /// A key stayed untouched for at least the timeout duration.
    TimeOut,
    /// The clock shut down. Delivered at most once per clock, and no
    /// timeout notification follows it.
    SandClockDrop,
}

/// A notification for the user's handler: which key the event is
/// about, and what happened to it.
pub struct TimeOutUpdate<K: SandClockInsertion> {
    key: K,
    event: ClockEvent,
}

impl<K: SandClockInsertion> TimeOutUpdate<K> {
    /// The key, as contracts see it.
    pub closed spec fn spec_key(&self) -> K {
        self.key
    }

    /// The event kind, as contracts see it.
    pub closed spec fn spec_event(&self) -> ClockEvent {
        self.event
    }

    /// Packs a key and an event kind into one notification.
    pub fn new(key: K, event: ClockEvent) -> (u: Self)
        ensures
            u.spec_key() == key,
            u.spec_event() == event,
    {
        TimeOutUpdate { key, event }
    }

    /// The key the notification is about, as an owned copy.
    pub fn key(&self) -> (k: K)
        ensures
            k@ == self.spec_key()@,
    {
        self.key.clone_key()
    }

    /// What happened to the key.
    pub fn event(&self) -> (e: ClockEvent)
        ensures
            e == self.spec_event(),
    {
        self.event
    }
}

/// An event as it travels from the scanning cycle to the dispatching
/// side, still holding the table's encoding of the key.
pub enum ClockEventIntern<T> {
    /// A key's inactivity crossed the timeout; holds the table's
    /// handle to that key.
    TimeOutIntern(T),
    /// The terminal shutdown signal.
    SandClockDrop,
}

impl<K: SandClockInsertion> ClockEventIntern<InsertSync<K>> {
    /// One dispatching step: what the user's handler receives for this
    /// queued event, and whether the dispatcher must stop taking work
    /// afterwards — which it does exactly on the shutdown signal.
    pub fn into_update(self) -> (r: (Option<TimeOutUpdate<K>>, bool))
        ensures
            match self {
                ClockEventIntern::TimeOutIntern(h) => {
                    &&& r.1 == false
                    &&& r.0 matches Some(u) && u.spec_key()@ == h@ && u.spec_event()
                        == ClockEvent::TimeOut
                },
                ClockEventIntern::SandClockDrop => r.0 is None && r.1 == true,
            },
    {
        match self {
            ClockEventIntern::TimeOutIntern(handle) => (
                Some(TimeOutUpdate::new(handle.into_inner(), ClockEvent::TimeOut)),
                false,
            ),
            ClockEventIntern::SandClockDrop => (None, true),
        }
    }
}

} // verus!
