use vstd::prelude::*;
use vstd::pervasive::VecAdditionalExecFns;

use crate::sync_insertion::InsertSync;
use crate::sync_insertion::SandClockInsertion;
use crate::table::TableEntry;
use crate::table::distinct_keys;
use crate::table::entries_map;
use crate::table::find_index;
use crate::table::lemma_distinct_remove;
use crate::table::lemma_entries_map_contains;
use crate::table::lemma_entries_map_index;
use crate::table::lemma_entries_map_pointwise;
use crate::table::lemma_entries_map_remove;
use crate::time_update::ClockEventIntern;
use crate::timer_status::StatusModel;

verus! {

/// The scanning loop's state. It only ever moves forward: `Running`
/// until a shutdown is requested, `ShuttingDown` until the next cycle
/// observes the request, then `Stopped` for good.
#[derive(Clone, Copy, Debug, PartialEq, Eq, Structural)]
pub enum ScanState {
    /// Scanning normally.
    Running,
    /// A shutdown was requested but no cycle has observed it yet.
    ShuttingDown,
    /// The terminal state: the shutdown signal is out, nothing more is
    /// reported.
    Stopped,
}

/// Whether an entry's inactivity has reached `timeout` at `now` and
/// was not already reported.
pub open spec fn spec_times_out(st: StatusModel, now: u64, timeout: u64) -> bool {
    &&& !st.expired
    &&& now >= st.last_update + timeout
}

/// The entry once its expiry is recorded.
pub open spec fn spec_mark(st: StatusModel) -> StatusModel {
    StatusModel { expired: true, last_update: st.last_update }
}

/// What one marking pass at `now` leaves of a single entry.
pub open spec fn spec_step_status(st: StatusModel, now: u64, timeout: u64) -> StatusModel {
    if spec_times_out(st, now, timeout) {
        spec_mark(st)
    } else {
        st
    }
}

/// The whole table after one marking pass at `now`: every entry whose
/// inactivity reached the timeout is marked, every other entry is left
/// alone, and no key appears or disappears.
pub open spec fn spec_scan_table<KV>(m: Map<KV, StatusModel>, now: u64, timeout: u64) -> Map<
    KV,
    StatusModel,
> {
    Map::new(|k: KV| m.dom().contains(k), |k: KV| spec_step_status(m[k], now, timeout))
}

/// The keys whose expiry the pass at `now` reports: live entries whose
/// inactivity reached the timeout.
pub open spec fn spec_expired_keys<KV>(m: Map<KV, StatusModel>, now: u64, timeout: u64) -> Set<
    KV,
> {
    Set::new(|k: KV| m.dom().contains(k) && spec_times_out(m[k], now, timeout))
}

/// The table after the deferred cleanup pass: a key reported on the
/// previous cycle leaves, unless a fresh lifecycle replaced its entry
/// in the meantime — an entry is only ever deleted once marked.
pub open spec fn spec_cleanup<KV>(m: Map<KV, StatusModel>, pending: Set<KV>) -> Map<
    KV,
    StatusModel,
> {
    Map::new(|k: KV| m.dom().contains(k) && !(pending.contains(k) && m[k].expired), |k: KV| m[k])
}

/// The keys of the entries a marking pass over `s` reports, in slot
/// order.
pub open spec fn expiring_keys<K: SandClockInsertion>(
    s: Seq<TableEntry<K>>,
    now: u64,
    timeout: u64,
) -> Seq<K::V>
    decreases s.len(),
{
    if s.len() == 0 {
        Seq::empty()
    } else {
        let prefix = expiring_keys(s.drop_last(), now, timeout);
        if spec_times_out(s.last().1@, now, timeout) {
            prefix.push(s.last().0@)
        } else {
            prefix
        }
    }
}

/// Appending to a sequence adds exactly the appended element to the
/// set of its elements.
proof fn lemma_push_to_set<A>(s: Seq<A>, x: A)
    ensures
        s.push(x).to_set() =~= s.to_set().insert(x),
{
    assert forall|a: A| s.push(x).to_set().contains(a) implies s.to_set().insert(x).contains(
        a,
    ) by {
        let i = choose|i: int| 0 <= i < s.push(x).len() && s.push(x)[i] == a;
        if i < s.len() {
            assert(s[i] == a);
        }
    }
    assert forall|a: A| s.to_set().insert(x).contains(a) implies s.push(x).to_set().contains(
        a,
    ) by {
        if a == x {
            assert(s.push(x)[s.len() as int] == a);
        } else {
            let i = choose|i: int| 0 <= i < s.len() && s[i] == a;
            assert(s.push(x)[i] == a);
        }
    }
}

/// Over distinct slots, the reported keys are exactly the expired-key
/// set of the table's mapping, each reported once.
pub proof fn lemma_expiring_keys_set<K: SandClockInsertion>(
    s: Seq<TableEntry<K>>,
    now: u64,
    timeout: u64,
)
    requires
        distinct_keys(s),
    ensures
        expiring_keys(s, now, timeout).to_set() =~= spec_expired_keys(
            entries_map(s),
            now,
            timeout,
        ),
        forall|a: int, b: int|
            0 <= a < b < expiring_keys(s, now, timeout).len() ==> expiring_keys(s, now, timeout)[a]
                != expiring_keys(s, now, timeout)[b],
    decreases s.len(),
{
    if s.len() == 0 {
        assert(expiring_keys(s, now, timeout).to_set() =~= spec_expired_keys(
            entries_map(s),
            now,
            timeout,
        ));
    } else {
        crate::table::lemma_distinct_drop_last(s);
        lemma_expiring_keys_set(s.drop_last(), now, timeout);
        lemma_entries_map_contains(s.drop_last(), s.last().0@);
        assert forall|j: int|
            0 <= j < s.drop_last().len() implies s.drop_last()[j].0@ != s.last().0@ by {
            assert(s[j].0@ != s[s.len() - 1].0@);
        }
        assert(!entries_map(s.drop_last()).dom().contains(s.last().0@));
        let prefix = expiring_keys(s.drop_last(), now, timeout);
        let whole = expiring_keys(s, now, timeout);
        if spec_times_out(s.last().1@, now, timeout) {
            assert(whole == prefix.push(s.last().0@));
            lemma_push_to_set(prefix, s.last().0@);
            assert(!prefix.to_set().contains(s.last().0@));
        } else {
            assert(whole == prefix);
        }
        assert(whole.to_set() =~= spec_expired_keys(entries_map(s), now, timeout));
    }
}

/// The views of a sequence of key handles.
pub open spec fn handle_views<K: SandClockInsertion>(s: Seq<InsertSync<K>>) -> Seq<K::V> {
    s.map_values(|h: InsertSync<K>| h@)
}

/// No two handles name the same key.
pub open spec fn distinct_handles<K: SandClockInsertion>(s: Seq<InsertSync<K>>) -> bool {
    forall|i: int, j: int| 0 <= i < j < s.len() ==> s[i]@ != s[j]@
}

/// One marking pass over the table at `now`: marks every live entry
/// whose inactivity reached `timeout` and hands back one handle per
/// newly marked key, in slot order. Keys never move or vanish here —
/// deletion is the next cycle's cleanup pass.
pub(crate) fn mark_pass<K: SandClockInsertion>(
    entries: &mut Vec<TableEntry<K>>,
    now: u64,
    timeout: u64,
) -> (batch: Vec<InsertSync<K>>)
    ensures
        final(entries)@.len() == old(entries)@.len(),
        forall|j: int|
            0 <= j < final(entries)@.len() ==> final(entries)@[j].0@ == old(entries)@[j].0@,
        forall|j: int|
            0 <= j < final(entries)@.len() ==> final(entries)@[j].1@ == spec_step_status(
                old(entries)@[j].1@,
                now,
                timeout,
            ),
        handle_views(batch@) == expiring_keys(old(entries)@, now, timeout),
{
    let ghost s0 = entries@;
    let mut batch: Vec<InsertSync<K>> = Vec::new();
    let mut i: usize = 0;
    while i < entries.len()
        invariant
            i <= entries@.len(),
            entries@.len() == s0.len(),
            forall|j: int| 0 <= j < s0.len() ==> entries@[j].0@ == s0[j].0@,
            forall|j: int| i <= j < s0.len() ==> entries@[j].1@ == s0[j].1@,
            forall|j: int|
                0 <= j < i ==> entries@[j].1@ == spec_step_status(s0[j].1@, now, timeout),
            handle_views(batch@) == expiring_keys(s0.take(i as int), now, timeout),
        decreases entries@.len() - i,
    {
        let ghost batch_pre = batch@;
        let expires_now: bool = if entries[i].1.is_expired() {
            false
        } else {
            let last: u64 = entries[i].1.time_out_info().get_last_instant_update();
            now >= last && now - last >= timeout
        };
        if expires_now {
            let handle = entries[i].0.duplicate();
            let mut status = entries[i].1;
            status.expired();
            batch.push(handle.duplicate());
            entries.set(i, (handle, status));
        }
        proof {
            assert(s0.take(i + 1 as int).drop_last() =~= s0.take(i as int));
            assert(s0.take(i + 1 as int).last() == s0[i as int]);
            if expires_now {
                assert(handle_views(batch@) =~= handle_views(batch_pre).push(batch@.last()@));
                assert(batch@.last()@ == s0[i as int].0@);
            } else {
                assert(!spec_times_out(s0[i as int].1@, now, timeout));
            }
            assert(handle_views(batch@) == expiring_keys(s0.take(i + 1 as int), now, timeout));
        }
        i = i + 1;
    }
    proof {
        assert(s0.take(s0.len() as int) =~= s0);
    }
    batch
}

/// The deferred cleanup pass: deletes every entry that a previous
/// cycle reported, and only such entries — a key whose slot was
/// replaced by a fresh, unmarked lifecycle in the meantime stays.
pub(crate) fn cleanup_pass<K: SandClockInsertion>(
    entries: &mut Vec<TableEntry<K>>,
    pending: &Vec<InsertSync<K>>,
)
    requires
        distinct_keys(old(entries)@),
    ensures
        distinct_keys(final(entries)@),
        entries_map(final(entries)@) == spec_cleanup(
            entries_map(old(entries)@),
            handle_views(pending@).to_set(),
        ),
{
    let ghost m0 = entries_map(entries@);
    let mut i: usize = 0;
    while i < pending.len()
        invariant
            i <= pending@.len(),
            distinct_keys(entries@),
            entries_map(entries@) =~= spec_cleanup(
                m0,
                handle_views(pending@.take(i as int)).to_set(),
            ),
        decreases pending@.len() - i,
    {
        let ghost processed = handle_views(pending@.take(i as int)).to_set();
        let ghost cur = entries_map(entries@);
        let p = &pending[i];
        match find_index(entries, p.inner_ref()) {
            Some(idx) => {
                proof {
                    lemma_entries_map_index(entries@, idx as int);
                }
                if entries[idx].1.is_expired() {
                    proof {
                        lemma_entries_map_remove(entries@, idx as int);
                        lemma_distinct_remove(entries@, idx as int);
                    }
                    entries.remove(idx);
                }
            },
            None => {
                proof {
                    lemma_entries_map_contains(entries@, p@);
                }
            },
        }
        proof {
            assert(handle_views(pending@.take(i + 1 as int)) =~= handle_views(
                pending@.take(i as int),
            ).push(pending@[i as int]@));
            let processed2 = handle_views(pending@.take(i + 1 as int)).to_set();
            lemma_push_to_set(handle_views(pending@.take(i as int)), pending@[i as int]@);
            assert(processed2 =~= processed.insert(p@));
            if cur.dom().contains(p@) && cur[p@].expired {
                assert(m0.dom().contains(p@) && m0[p@].expired && !processed.contains(p@));
                assert(entries_map(entries@) =~= spec_cleanup(m0, processed2));
            } else {
                assert(entries_map(entries@) =~= spec_cleanup(m0, processed2));
            }
        }
        i = i + 1;
    }
    proof {
        assert(pending@.take(pending@.len() as int) =~= pending@);
    }
}

/// The scanning side of a clock: which phase the loop is in, and the
/// keys reported on the previous cycle that the next cycle deletes.
pub struct TimerLoop<K: SandClockInsertion> {
    pub(crate) state: ScanState,
    pub(crate) pending: Vec<InsertSync<K>>,
}

impl<K: SandClockInsertion> TimerLoop<K> {
    /// The loop's phase, as contracts see it.
    pub(crate) open spec fn spec_state(&self) -> ScanState {
        self.state
    }

    /// The keys reported on the previous cycle, awaiting deletion.
    pub(crate) open spec fn spec_pending(&self) -> Seq<K::V> {
        handle_views(self.pending@)
    }

    /// Internal well-formedness: no key awaits deletion twice.
    pub(crate) open spec fn inv(&self) -> bool {
        distinct_handles(self.pending@)
    }

    /// A loop that has not yet run: no cycle behind it, nothing
    /// awaiting deletion.
    pub(crate) fn new() -> (l: Self)
        ensures
            l.spec_state() == ScanState::Running,
            l.spec_pending() == Seq::<K::V>::empty(),
            l.inv(),
    {
        let l = TimerLoop { state: ScanState::Running, pending: Vec::new() };
        proof {
            assert(handle_views(l.pending@) =~= Seq::<K::V>::empty());
        }
        l
    }

    /// One scanning cycle at time `now` over the given table.
    ///
    /// A stopped loop does nothing. A loop that saw a shutdown request
    /// emits the terminal shutdown signal, once, and stops. A running
    /// loop first marks every live entry whose inactivity reached
    /// `timeout` and emits one timeout event per such key, then deletes
    /// the entries it reported on the previous cycle — so a reported
    /// entry outlives its event by exactly one cycle, and a fresh
    /// lifecycle that replaced a reported key meanwhile is spared.
    pub(crate) fn run_cycle(
        &mut self,
        entries: &mut Vec<TableEntry<K>>,
        now: u64,
        timeout: u64,
    ) -> (events: Vec<ClockEventIntern<InsertSync<K>>>)
        requires
            distinct_keys(old(entries)@),
            old(self).inv(),
        ensures
            distinct_keys(final(entries)@),
            final(self).inv(),
            old(self).spec_state() == ScanState::Stopped ==> {
                &&& final(self).spec_state() == ScanState::Stopped
                &&& final(self).spec_pending() == old(self).spec_pending()
                &&& final(entries)@ == old(entries)@
                &&& events@.len() == 0
            },
            old(self).spec_state() == ScanState::ShuttingDown ==> {
                &&& final(self).spec_state() == ScanState::Stopped
                &&& final(self).spec_pending() == old(self).spec_pending()
                &&& final(entries)@ == old(entries)@
                &&& events@.len() == 1
                &&& events@[0] is SandClockDrop
            },
            old(self).spec_state() == ScanState::Running ==> {
                &&& final(self).spec_state() == ScanState::Running
                &&& entries_map(final(entries)@) == spec_cleanup(
                    spec_scan_table(entries_map(old(entries)@), now, timeout),
                    old(self).spec_pending().to_set(),
                )
                &&& final(self).spec_pending().to_set() == spec_expired_keys(
                    entries_map(old(entries)@),
                    now,
                    timeout,
                )
                &&& (forall|a: int, b: int|
                    0 <= a < b < final(self).spec_pending().len()
                        ==> final(self).spec_pending()[a] != final(self).spec_pending()[b])
                &&& events@.len() == final(self).spec_pending().len()
                &&& (forall|j: int|
                    0 <= j < events@.len() ==> ((#[trigger] events@[j])
                        matches ClockEventIntern::TimeOutIntern(h)
                        && h@ == final(self).spec_pending()[j]))
            },
    {
        match self.state {
            ScanState::Stopped => Vec::new(),
            ScanState::ShuttingDown => {
                self.state = ScanState::Stopped;
                let mut events: Vec<ClockEventIntern<InsertSync<K>>> = Vec::new();
                events.push(ClockEventIntern::SandClockDrop);
                events
            },
            ScanState::Running => {
                let ghost s_orig = entries@;
                let ghost m0 = entries_map(entries@);
                let batch = mark_pass(entries, now, timeout);
                proof {
                    assert forall|i: int, j: int|
                        0 <= i < j < entries@.len() implies entries@[i].0@ != entries@[j].0@ by {
                        assert(s_orig[i].0@ != s_orig[j].0@);
                    }
                    lemma_entries_map_pointwise(
                        s_orig,
                        entries@,
                        |st: StatusModel| spec_step_status(st, now, timeout),
                    );
                    assert(entries_map(entries@) =~= spec_scan_table(m0, now, timeout));
                    lemma_expiring_keys_set(s_orig, now, timeout);
                }
                cleanup_pass(entries, &self.pending);
                let mut events: Vec<ClockEventIntern<InsertSync<K>>> = Vec::new();
                let mut i: usize = 0;
                while i < batch.len()
                    invariant
                        i <= batch@.len(),
                        events@.len() == i,
                        forall|j: int|
                            0 <= j < i ==> ((#[trigger] events@[j])
                                matches ClockEventIntern::TimeOutIntern(h) && h@ == batch@[j]@),
                    decreases batch@.len() - i,
                {
                    events.push(ClockEventIntern::TimeOutIntern(batch[i].duplicate()));
                    i = i + 1;
                }
                proof {
                    assert forall|a: int, b: int|
                        0 <= a < b < batch@.len() implies batch@[a]@ != batch@[b]@ by {
                        assert(handle_views(batch@)[a] == batch@[a]@);
                        assert(handle_views(batch@)[b] == batch@[b]@);
                    }
                }
                self.pending = batch;
                events
            },
        }
    }
}

} // verus!
