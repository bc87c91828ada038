use vstd::prelude::*;

use core::marker::PhantomData;

use crate::config::SandClockConfig;
use crate::errors::UserConnectedBaseError;
use crate::sync_insertion::InsertSync;
use crate::sync_insertion::SandClockInsertion;
use crate::table::TableEntry;
use crate::table::distinct_keys;
use crate::table::entries_map;
use crate::table::find_index;
use crate::table::lemma_distinct_remove;
use crate::table::lemma_entries_map_contains;
use crate::table::lemma_entries_map_index;
use crate::table::lemma_entries_map_len;
use crate::table::lemma_entries_map_push;
use crate::table::lemma_entries_map_remove;
use crate::table::lemma_entries_map_update;
use crate::time_update::ClockEventIntern;
use crate::timer_loop::ScanState;
use crate::timer_loop::TimerLoop;
use crate::timer_loop::spec_cleanup;
use crate::timer_loop::spec_expired_keys;
use crate::timer_loop::spec_scan_table;
use crate::timer_status::StatusModel;
use crate::timer_status::TimerStatus;

verus! {

/// The table after a touch of key `k` at `now`: an absent key gets a
/// fresh, unexpired entry; a live entry's timestamp is refreshed, the
/// last write winning; an entry whose expiry is already reported is
/// left alone — its lifecycle is over, and only its deletion can make
/// room for a new one.
pub open spec fn spec_touch<KV>(m: Map<KV, StatusModel>, k: KV, now: u64) -> Map<
    KV,
    StatusModel,
> {
    if m.dom().contains(k) && m[k].expired {
        m
    } else {
        m.insert(k, StatusModel { expired: false, last_update: now })
    }
}

/// Configures and validates a clock before any of it runs. Building
/// fails fast — with the matching error — while the timeout handler or
/// the timeout duration is missing, and hands back the handler next to
/// the fresh clock otherwise, so the caller can wire it to whatever
/// delivers the events.
pub struct SandClockBuilder<K: SandClockInsertion, H> {
    time_out_event_call_back: Option<H>,
    time_out_duration: Option<u64>,
    config: SandClockConfig,
    phantom_data: PhantomData<K>,
}

impl<K: SandClockInsertion, H> SandClockBuilder<K, H> {
    /// The handler installed so far, as contracts see it.
    pub closed spec fn spec_handler(&self) -> Option<H> {
        self.time_out_event_call_back
    }

    /// The timeout duration chosen so far, in milliseconds.
    pub closed spec fn spec_duration(&self) -> Option<u64> {
        self.time_out_duration
    }

    /// The configuration the clock will run under.
    pub closed spec fn spec_config(&self) -> SandClockConfig {
        self.config
    }

    /// Installs the handler that timeout and shutdown notifications
    /// are meant for.
    pub fn set_time_out_event(self, t_o_event: H) -> (b: Self)
        ensures
            b.spec_handler() == Some(t_o_event),
            b.spec_duration() == self.spec_duration(),
            b.spec_config() == self.spec_config(),
    {
        SandClockBuilder {
            time_out_event_call_back: Some(t_o_event),
            time_out_duration: self.time_out_duration,
            config: self.config,
            phantom_data: PhantomData,
        }
    }

    /// Chooses the inactivity threshold, in milliseconds, beyond which
    /// a key times out.
    pub fn set_time_out_duration(self, time_out_duration: u64) -> (b: Self)
        ensures
            b.spec_duration() == Some(time_out_duration),
            b.spec_handler() == self.spec_handler(),
            b.spec_config() == self.spec_config(),
    {
        SandClockBuilder {
            time_out_event_call_back: self.time_out_event_call_back,
            time_out_duration: Some(time_out_duration),
            config: self.config,
            phantom_data: PhantomData,
        }
    }

    /// Checks the configuration and hands out the clock and the
    /// handler, or says exactly what is missing: the handler first,
    /// then the duration. Nothing runs before this succeeds.
    pub fn build(self) -> (r: Result<(SandClock<K>, H), UserConnectedBaseError>)
        ensures
            r is Ok <==> (self.spec_handler() is Some && self.spec_duration() is Some),
            match r {
                Ok(pair) => {
                    &&& Some(pair.1) == self.spec_handler()
                    &&& pair.0.table() == Map::<K::V, StatusModel>::empty()
                    &&& pair.0.pending() == Seq::<K::V>::empty()
                    &&& pair.0.scan_state() == ScanState::Running
                    &&& Some(pair.0.timeout_millis()) == self.spec_duration()
                    &&& pair.0.refresh_millis() == self.spec_config().spec_refresh_millis()
                },
                Err(e) => {
                    &&& (e == UserConnectedBaseError::BuildErrorNoTimeOutSet <==> self.spec_handler() is None)
                    &&& (e == UserConnectedBaseError::BuildErrorNoDurationSet <==> (
                    self.spec_handler() is Some && self.spec_duration() is None))
                },
            },
    {
        match self.time_out_event_call_back {
            Some(time_out) => {
                match self.time_out_duration {
                    Some(duration) => {
                        let clock = SandClock {
                            entries: Vec::new(),
                            timer_loop: TimerLoop::new(),
                            config: self.config,
                            time_out_duration: duration,
                        };
                        proof {
                            assert(clock.table() =~= Map::<K::V, StatusModel>::empty());
                        }
                        Ok((clock, time_out))
                    },
                    None => Err(UserConnectedBaseError::BuildErrorNoDurationSet),
                }
            },
            None => Err(UserConnectedBaseError::BuildErrorNoTimeOutSet),
        }
    }
}

/// The expiry-detection engine: a keyed timer table together with the
/// scanning loop's state. Callers touch and remove keys at any time;
/// whoever owns the clock drives [`SandClock::scan_cycle`] once per
/// refresh interval and delivers the events it hands back.
pub struct SandClock<K: SandClockInsertion> {
    entries: Vec<TableEntry<K>>,
    timer_loop: TimerLoop<K>,
    config: SandClockConfig,
    time_out_duration: u64,
}

impl<K: SandClockInsertion> SandClock<K> {
    #[verifier::type_invariant]
    spec fn type_inv(&self) -> bool {
        &&& distinct_keys(self.entries@)
        &&& self.timer_loop.inv()
    }

    /// The timer table: each tracked key's abstract value bound to its
    /// entry's state.
    pub closed spec fn table(&self) -> Map<K::V, StatusModel> {
        entries_map(self.entries@)
    }

    /// The keys reported on the previous cycle, which the next cycle
    /// deletes.
    pub closed spec fn pending(&self) -> Seq<K::V> {
        self.timer_loop.spec_pending()
    }

    /// Which phase the scanning loop is in.
    pub closed spec fn scan_state(&self) -> ScanState {
        self.timer_loop.spec_state()
    }

    /// The inactivity threshold, in milliseconds.
    pub closed spec fn timeout_millis(&self) -> u64 {
        self.time_out_duration
    }

    /// The scanning cadence, in milliseconds.
    pub closed spec fn refresh_millis(&self) -> u64 {
        self.config.spec_refresh_millis()
    }

    /// Starts configuring a clock over the given configuration.
    pub fn new<H>(config: SandClockConfig) -> (b: SandClockBuilder<K, H>)
        ensures
            b.spec_handler() is None,
            b.spec_duration() is None,
            b.spec_config() == config,
    {
        SandClockBuilder {
            time_out_event_call_back: None,
            time_out_duration: None,
            config,
            phantom_data: PhantomData,
        }
    }

    /// Signals activity for `key` at time `now`: inserts a fresh entry
    /// for an absent key, refreshes the timestamp of a live one — the
    /// last write wins — and leaves an already-reported entry alone.
    pub fn insert_or_update_timer(&mut self, key: K, now: u64)
        ensures
            final(self).table() == spec_touch(old(self).table(), key@, now),
            final(self).pending() == old(self).pending(),
            final(self).scan_state() == old(self).scan_state(),
            final(self).timeout_millis() == old(self).timeout_millis(),
            final(self).refresh_millis() == old(self).refresh_millis(),
    {
        proof {
            use_type_invariant(&*self);
        }
        let mut entries: Vec<TableEntry<K>> = Vec::new();
        core::mem::swap(&mut entries, &mut self.entries);
        let ghost s0 = entries@;
        match find_index(&entries, &key) {
            Some(i) => {
                proof {
                    lemma_entries_map_index(s0, i as int);
                }
                if !entries[i].1.is_expired() {
                    let handle = entries[i].0.duplicate();
                    entries.set(i, (handle, TimerStatus::new(now)));
                    proof {
                        lemma_entries_map_update(s0, i as int, entries@[i as int]);
                        assert forall|a: int, b: int|
                            0 <= a < b < entries@.len() implies entries@[a].0@
                            != entries@[b].0@ by {
                            assert(s0[a].0@ != s0[b].0@);
                        }
                    }
                }
            },
            None => {
                proof {
                    lemma_entries_map_contains(s0, key@);
                }
                let handle = key.to_insert_sync();
                entries.push((handle, TimerStatus::new(now)));
                proof {
                    lemma_entries_map_push(s0, entries@.last());
                    assert forall|a: int, b: int|
                        0 <= a < b < entries@.len() implies entries@[a].0@ != entries@[b].0@ by {
                        if b < s0.len() {
                            assert(s0[a].0@ != s0[b].0@);
                        } else {
                            assert(s0[a].0@ != key@);
                        }
                    }
                }
            },
        }
        self.entries = entries;
    }

    /// Removes `key`'s entry if it has one; absent keys are a no-op,
    /// so removing is idempotent and never an error.
    pub fn remove_key(&mut self, key: K)
        ensures
            final(self).table() == old(self).table().remove(key@),
            final(self).pending() == old(self).pending(),
            final(self).scan_state() == old(self).scan_state(),
            final(self).timeout_millis() == old(self).timeout_millis(),
            final(self).refresh_millis() == old(self).refresh_millis(),
    {
        proof {
            use_type_invariant(&*self);
        }
        let mut entries: Vec<TableEntry<K>> = Vec::new();
        core::mem::swap(&mut entries, &mut self.entries);
        let ghost s0 = entries@;
        match find_index(&entries, &key) {
            Some(i) => {
                proof {
                    lemma_entries_map_remove(s0, i as int);
                    lemma_distinct_remove(s0, i as int);
                }
                entries.remove(i);
            },
            None => {
                proof {
                    lemma_entries_map_contains(s0, key@);
                    assert(entries_map(s0).remove(key@) =~= entries_map(s0));
                }
            },
        }
        self.entries = entries;
    }

    /// How many entries the table holds right now — still counting the
    /// reported ones that the next cycle will delete.
    pub fn get_entries_count(&self) -> (n: usize)
        ensures
            n as nat == self.table().dom().len(),
    {
        proof {
            use_type_invariant(self);
            lemma_entries_map_len(self.entries@);
        }
        self.entries.len()
    }

    /// Requests a shutdown. Idempotent, and observed cooperatively:
    /// the next scanning cycle emits the terminal shutdown signal and
    /// stops — one cycle's worth of latency at worst.
    pub fn shutdown(&mut self)
        ensures
            final(self).scan_state() == (if old(self).scan_state() == ScanState::Stopped {
                ScanState::Stopped
            } else {
                ScanState::ShuttingDown
            }),
            final(self).table() == old(self).table(),
            final(self).pending() == old(self).pending(),
            final(self).timeout_millis() == old(self).timeout_millis(),
            final(self).refresh_millis() == old(self).refresh_millis(),
    {
        proof {
            use_type_invariant(&*self);
        }
        match self.timer_loop.state {
            ScanState::Stopped => {},
            ScanState::Running => {
                self.timer_loop.state = ScanState::ShuttingDown;
            },
            ScanState::ShuttingDown => {
                self.timer_loop.state = ScanState::ShuttingDown;
            },
        }
    }

    /// One scanning cycle at time `now`; hands back the events to
    /// deliver, in table order.
    ///
    /// A stopped clock reports nothing, ever. A clock whose shutdown
    /// was requested emits the terminal shutdown signal — exactly once
    /// — and stops. A running clock reports each live key whose
    /// inactivity reached the timeout, marks it so no later cycle
    /// reports it again, and deletes what the previous cycle reported,
    /// sparing any fresh lifecycle that replaced such an entry.
    pub fn scan_cycle(&mut self, now: u64) -> (events: Vec<ClockEventIntern<InsertSync<K>>>)
        ensures
            final(self).timeout_millis() == old(self).timeout_millis(),
            final(self).refresh_millis() == old(self).refresh_millis(),
            old(self).scan_state() == ScanState::Stopped ==> {
                &&& final(self).scan_state() == ScanState::Stopped
                &&& final(self).pending() == old(self).pending()
                &&& final(self).table() == old(self).table()
                &&& events@.len() == 0
            },
            old(self).scan_state() == ScanState::ShuttingDown ==> {
                &&& final(self).scan_state() == ScanState::Stopped
                &&& final(self).pending() == old(self).pending()
                &&& final(self).table() == old(self).table()
                &&& events@.len() == 1
                &&& events@[0] is SandClockDrop
            },
            old(self).scan_state() == ScanState::Running ==> {
                &&& final(self).scan_state() == ScanState::Running
                &&& final(self).table() == spec_cleanup(
                    spec_scan_table(old(self).table(), now, old(self).timeout_millis()),
                    old(self).pending().to_set(),
                )
                &&& final(self).pending().to_set() == spec_expired_keys(
                    old(self).table(),
                    now,
                    old(self).timeout_millis(),
                )
                &&& (forall|a: int, b: int|
                    0 <= a < b < final(self).pending().len() ==> final(self).pending()[a]
                        != final(self).pending()[b])
                &&& events@.len() == final(self).pending().len()
                &&& (forall|j: int|
                    0 <= j < events@.len() ==> ((#[trigger] events@[j])
                        matches ClockEventIntern::TimeOutIntern(h)
                        && h@ == final(self).pending()[j]))
            },
    {
        proof {
            use_type_invariant(&*self);
        }
        let mut entries: Vec<TableEntry<K>> = Vec::new();
        core::mem::swap(&mut entries, &mut self.entries);
        let mut lp: TimerLoop<K> = TimerLoop::new();
        core::mem::swap(&mut lp, &mut self.timer_loop);
        let events = lp.run_cycle(&mut entries, now, self.time_out_duration);
        core::mem::swap(&mut lp, &mut self.timer_loop);
        self.entries = entries;
        events
    }
}

} // verus!
