use vstd::prelude::*;

use crate::timer_loop::ScanState;
use crate::timer_loop::spec_cleanup;
use crate::timer_loop::spec_expired_keys;
use crate::timer_loop::spec_scan_table;
use crate::timer_status::StatusModel;
use crate::user_table::spec_touch;

verus! {

/// A whole clock, as contracts see it: the timer table, the keys the
/// last cycle reported (to be deleted on the next one), and the phase
/// of the scanning loop. [`crate::SandClock`]'s methods pin their
/// effects to exactly these three pieces, so every law below is a law
/// about the clock itself.
#[verifier::reject_recursive_types(KV)]
pub struct ClockModel<KV> {
    /// The timer table.
    pub table: Map<KV, StatusModel>,
    /// The keys reported on the previous cycle.
    pub pending: Set<KV>,
    /// The scanning loop's phase.
    pub state: ScanState,
}

/// One step of a clock's life, caller-side or scanner-side.
pub enum ClockOp<KV> {
    /// `insert_or_update_timer(key, now)`.
    Touch(KV, u64),
    /// `remove_key(key)`.
    Remove(KV),
    /// `shutdown()`.
    RequestShutdown,
    /// `scan_cycle(now)`.
    Cycle(u64),
}

/// What one step does to the clock, exactly as the corresponding
/// method's contract states it.
pub open spec fn model_step<KV>(c: ClockModel<KV>, op: ClockOp<KV>, timeout: u64) -> ClockModel<
    KV,
> {
    match op {
        ClockOp::Touch(k, now) => ClockModel {
            table: spec_touch(c.table, k, now),
            pending: c.pending,
            state: c.state,
        },
        ClockOp::Remove(k) => ClockModel {
            table: c.table.remove(k),
            pending: c.pending,
            state: c.state,
        },
        ClockOp::RequestShutdown => ClockModel {
            table: c.table,
            pending: c.pending,
            state: if c.state == ScanState::Stopped {
                ScanState::Stopped
            } else {
                ScanState::ShuttingDown
            },
        },
        ClockOp::Cycle(now) => match c.state {
            ScanState::Running => ClockModel {
                table: spec_cleanup(spec_scan_table(c.table, now, timeout), c.pending),
                pending: spec_expired_keys(c.table, now, timeout),
                state: ScanState::Running,
            },
            ScanState::ShuttingDown => ClockModel {
                table: c.table,
                pending: c.pending,
                state: ScanState::Stopped,
            },
            ScanState::Stopped => c,
        },
    }
}

/// The keys whose timeout the step reports: only a running cycle
/// reports any.
pub open spec fn step_timeouts<KV>(c: ClockModel<KV>, op: ClockOp<KV>, timeout: u64) -> Set<KV> {
    match op {
        ClockOp::Cycle(now) => if c.state == ScanState::Running {
            spec_expired_keys(c.table, now, timeout)
        } else {
            Set::empty()
        },
        _ => Set::empty(),
    }
}

/// Whether the step delivers the terminal shutdown signal: only the
/// first cycle after a shutdown request does.
pub open spec fn step_emits_shutdown<KV>(c: ClockModel<KV>, op: ClockOp<KV>) -> bool {
    op is Cycle && c.state == ScanState::ShuttingDown
}

/// The clock after a whole run of steps.
pub open spec fn run_ops<KV>(c: ClockModel<KV>, ops: Seq<ClockOp<KV>>, timeout: u64) -> ClockModel<
    KV,
>
    decreases ops.len(),
{
    if ops.len() == 0 {
        c
    } else {
        run_ops(model_step(c, ops[0], timeout), ops.drop_first(), timeout)
    }
}

/// How many steps of the run report a timeout for key `k`.
pub open spec fn timeout_reports<KV>(
    c: ClockModel<KV>,
    ops: Seq<ClockOp<KV>>,
    timeout: u64,
    k: KV,
) -> nat
    decreases ops.len(),
{
    if ops.len() == 0 {
        0
    } else {
        (if step_timeouts(c, ops[0], timeout).contains(k) {
            1nat
        } else {
            0nat
        }) + timeout_reports(model_step(c, ops[0], timeout), ops.drop_first(), timeout, k)
    }
}

/// How many steps of the run deliver the terminal shutdown signal.
pub open spec fn shutdown_reports<KV>(c: ClockModel<KV>, ops: Seq<ClockOp<KV>>, timeout: u64) -> nat
    decreases ops.len(),
{
    if ops.len() == 0 {
        0
    } else {
        (if step_emits_shutdown(c, ops[0]) {
            1nat
        } else {
            0nat
        }) + shutdown_reports(model_step(c, ops[0], timeout), ops.drop_first(), timeout)
    }
}

/// No step of the run touches `k`.
pub open spec fn never_touched<KV>(ops: Seq<ClockOp<KV>>, k: KV) -> bool
    decreases ops.len(),
{
    ops.len() == 0 || {
        &&& !(ops[0] matches ClockOp::Touch(k2, now) && k2 == k)
        &&& never_touched(ops.drop_first(), k)
    }
}

/// No step of the run removes `k`.
pub open spec fn never_removed<KV>(ops: Seq<ClockOp<KV>>, k: KV) -> bool
    decreases ops.len(),
{
    ops.len() == 0 || {
        &&& !(ops[0] matches ClockOp::Remove(k2) && k2 == k)
        &&& never_removed(ops.drop_first(), k)
    }
}

/// No step of the run requests a shutdown.
pub open spec fn no_shutdown_requested<KV>(ops: Seq<ClockOp<KV>>) -> bool
    decreases ops.len(),
{
    ops.len() == 0 || {
        &&& !(ops[0] is RequestShutdown)
        &&& no_shutdown_requested(ops.drop_first())
    }
}

/// Some step of the run is a cycle at `deadline` or later.
pub open spec fn some_cycle_at_or_after<KV>(ops: Seq<ClockOp<KV>>, deadline: int) -> bool
    decreases ops.len(),
{
    ops.len() > 0 && {
        ||| (ops[0] matches ClockOp::Cycle(now) && now >= deadline)
        ||| some_cycle_at_or_after(ops.drop_first(), deadline)
    }
}

/// Along the run, every cycle comes strictly less than `timeout` after
/// `k`'s then-current last touch — the key is kept alive the whole time.
pub open spec fn touched_often_enough<KV>(
    c: ClockModel<KV>,
    ops: Seq<ClockOp<KV>>,
    timeout: u64,
    k: KV,
) -> bool
    decreases ops.len(),
{
    ops.len() == 0 || {
        &&& (match ops[0] {
            ClockOp::Cycle(now) => c.table.dom().contains(k) && !c.table[k].expired ==> now
                < c.table[k].last_update + timeout,
            _ => true,
        })
        &&& touched_often_enough(model_step(c, ops[0], timeout), ops.drop_first(), timeout, k)
    }
}

/// A key that is touched again strictly less than the timeout before
/// every cycle is never reported: no timeout ever fires for a key that
/// stays active.
pub proof fn lemma_no_timeout_when_touched_often<KV>(
    c: ClockModel<KV>,
    ops: Seq<ClockOp<KV>>,
    timeout: u64,
    k: KV,
)
    requires
        touched_often_enough(c, ops, timeout, k),
    ensures
        timeout_reports(c, ops, timeout, k) == 0,
    decreases ops.len(),
{
    if ops.len() > 0 {
        lemma_no_timeout_when_touched_often(
            model_step(c, ops[0], timeout),
            ops.drop_first(),
            timeout,
            k,
        );
    }
}

/// A key whose entry is gone, or already reported, is never reported
/// again while nothing touches it: an old lifecycle never fires a
/// stale timeout.
pub proof fn lemma_dead_key_stays_unreported<KV>(
    c: ClockModel<KV>,
    ops: Seq<ClockOp<KV>>,
    timeout: u64,
    k: KV,
)
    requires
        c.table.dom().contains(k) ==> c.table[k].expired,
        never_touched(ops, k),
    ensures
        timeout_reports(c, ops, timeout, k) == 0,
    decreases ops.len(),
{
    if ops.len() > 0 {
        let c2 = model_step(c, ops[0], timeout);
        assert(c2.table.dom().contains(k) ==> c2.table[k].expired);
        lemma_dead_key_stays_unreported(c2, ops.drop_first(), timeout, k);
    }
}

/// A key touched once and then left alone is reported exactly once,
/// by the first cycle that runs at or after its deadline — provided
/// the clock keeps running and some cycle does run that late.
pub proof fn lemma_single_touch_reported_once<KV>(
    c: ClockModel<KV>,
    ops: Seq<ClockOp<KV>>,
    timeout: u64,
    k: KV,
)
    requires
        c.state == ScanState::Running,
        c.table.dom().contains(k),
        !c.table[k].expired,
        never_touched(ops, k),
        never_removed(ops, k),
        no_shutdown_requested(ops),
        some_cycle_at_or_after(ops, c.table[k].last_update + timeout),
    ensures
        timeout_reports(c, ops, timeout, k) == 1,
    decreases ops.len(),
{
    let c2 = model_step(c, ops[0], timeout);
    match ops[0] {
        ClockOp::Touch(k2, now) => {
            lemma_single_touch_reported_once(c2, ops.drop_first(), timeout, k);
        },
        ClockOp::Remove(k2) => {
            lemma_single_touch_reported_once(c2, ops.drop_first(), timeout, k);
        },
        ClockOp::RequestShutdown => {
            assert(false);
        },
        ClockOp::Cycle(now) => {
            if now >= c.table[k].last_update + timeout {
                assert(step_timeouts(c, ops[0], timeout).contains(k));
                assert(c2.table.dom().contains(k) ==> c2.table[k].expired);
                lemma_dead_key_stays_unreported(c2, ops.drop_first(), timeout, k);
            } else {
                assert(!step_timeouts(c, ops[0], timeout).contains(k));
                assert(c2.table.dom().contains(k) && c2.table[k] == c.table[k]);
                lemma_single_touch_reported_once(c2, ops.drop_first(), timeout, k);
            }
        },
    }
}

/// A run made of scanning cycles alone, at the given times.
pub open spec fn cycles_of<KV>(times: Seq<u64>) -> Seq<ClockOp<KV>> {
    times.map_values(|t: u64| ClockOp::<KV>::Cycle(t))
}

/// In a run of cycles, a live key is reported exactly by the first
/// cycle at or after its deadline — no earlier cycle reports it.
pub proof fn lemma_reported_at_first_due_cycle<KV>(
    c: ClockModel<KV>,
    times: Seq<u64>,
    timeout: u64,
    k: KV,
    i: int,
)
    requires
        c.state == ScanState::Running,
        c.table.dom().contains(k),
        !c.table[k].expired,
        0 <= i < times.len(),
        times[i] >= c.table[k].last_update + timeout,
        forall|j: int| 0 <= j < i ==> times[j] < c.table[k].last_update + timeout,
    ensures
        step_timeouts(
            run_ops(c, cycles_of::<KV>(times).take(i), timeout),
            ClockOp::Cycle(times[i]),
            timeout,
        ).contains(k),
    decreases i,
{
    if i == 0 {
        assert(cycles_of::<KV>(times).take(0) =~= Seq::<ClockOp<KV>>::empty());
    } else {
        let c2 = model_step(c, ClockOp::Cycle(times[0]), timeout);
        assert(times[0] < c.table[k].last_update + timeout);
        assert(c2.table.dom().contains(k) && c2.table[k] == c.table[k]);
        lemma_reported_at_first_due_cycle(c2, times.drop_first(), timeout, k, i - 1);
        let ops = cycles_of::<KV>(times);
        assert(ops.take(i).drop_first() =~= cycles_of::<KV>(times.drop_first()).take(i - 1));
        assert(ops.take(i)[0] == ClockOp::<KV>::Cycle(times[0]));
        assert(run_ops(c, ops.take(i), timeout) == run_ops(
            c2,
            cycles_of::<KV>(times.drop_first()).take(i - 1),
            timeout,
        ));
    }
}

/// Under a cadence that never lets more than `refresh` pass between
/// one cycle and the next, the first cycle at or after a deadline
/// runs at most `refresh` past it — so, with the law above, a key
/// touched once is reported within `[timeout, timeout + refresh]` of
/// that touch.
pub proof fn lemma_first_due_cycle_within_refresh(
    times: Seq<u64>,
    deadline: int,
    refresh: u64,
    i: int,
)
    requires
        forall|j: int| 0 < j < times.len() ==> #[trigger] times[j] <= times[j - 1] + refresh,
        times.len() > 0,
        times[0] <= deadline + refresh,
        0 <= i < times.len(),
        times[i] >= deadline,
        forall|j: int| 0 <= j < i ==> times[j] < deadline,
    ensures
        deadline <= times[i] <= deadline + refresh,
{
    if i > 0 {
        assert(times[i - 1] < deadline);
        assert(times[i] <= times[i - 1] + refresh);
    }
}

/// A key a cycle reports is out of the table by the end of the next
/// cycle, if nothing re-touches it in between: the entry outlives its
/// event by exactly one cycle.
pub proof fn lemma_reported_key_leaves_next_cycle<KV>(
    c: ClockModel<KV>,
    now1: u64,
    now2: u64,
    timeout: u64,
    k: KV,
)
    requires
        c.state == ScanState::Running,
        step_timeouts(c, ClockOp::Cycle(now1), timeout).contains(k),
    ensures
        !model_step(
            model_step(c, ClockOp::Cycle(now1), timeout),
            ClockOp::Cycle(now2),
            timeout,
        ).table.dom().contains(k),
{
}

/// Touching a key whose earlier lifecycle was reported and removed
/// starts a fresh lifecycle: a live, unexpired entry stamped with the
/// touch, which no cycle before its own deadline reports.
pub proof fn lemma_fresh_lifecycle<KV>(
    m: Map<KV, StatusModel>,
    k: KV,
    now: u64,
    now2: u64,
    timeout: u64,
)
    requires
        !m.dom().contains(k),
    ensures
        spec_touch(m, k, now).dom().contains(k),
        spec_touch(m, k, now)[k] == (StatusModel { expired: false, last_update: now }),
        now2 < now + timeout ==> !spec_expired_keys(spec_touch(m, k, now), now2, timeout).contains(
            k,
        ),
{
}

/// Removing is idempotent: a second removal, or removing a key that
/// was never there, changes nothing.
pub proof fn lemma_remove_idempotent<KV>(m: Map<KV, StatusModel>, k: KV)
    ensures
        m.remove(k).remove(k) == m.remove(k),
        !m.dom().contains(k) ==> m.remove(k) == m,
{
    assert(m.remove(k).remove(k) =~= m.remove(k));
    if !m.dom().contains(k) {
        assert(m.remove(k) =~= m);
    }
}

/// Touches of two different keys commute: each key ends up with its
/// own entry, reflecting its own touch, however the calls interleave.
pub proof fn lemma_touch_commutes<KV>(m: Map<KV, StatusModel>, k1: KV, t1: u64, k2: KV, t2: u64)
    requires
        k1 != k2,
    ensures
        spec_touch(spec_touch(m, k1, t1), k2, t2) == spec_touch(spec_touch(m, k2, t2), k1, t1),
{
    assert(spec_touch(spec_touch(m, k1, t1), k2, t2) =~= spec_touch(
        spec_touch(m, k2, t2),
        k1,
        t1,
    ));
}

/// Repeated touches of one key collapse to the last one: last write
/// wins on the entry's timestamp.
pub proof fn lemma_touch_last_write_wins<KV>(m: Map<KV, StatusModel>, k: KV, t1: u64, t2: u64)
    ensures
        spec_touch(spec_touch(m, k, t1), k, t2) == spec_touch(m, k, t2),
{
    assert(spec_touch(spec_touch(m, k, t1), k, t2) =~= spec_touch(m, k, t2));
}

/// A stopped clock reports nothing, ever: no timeout and no further
/// shutdown signal.
pub proof fn lemma_stopped_clock_reports_nothing<KV>(
    c: ClockModel<KV>,
    ops: Seq<ClockOp<KV>>,
    timeout: u64,
    k: KV,
)
    requires
        c.state == ScanState::Stopped,
    ensures
        timeout_reports(c, ops, timeout, k) == 0,
        shutdown_reports(c, ops, timeout) == 0,
    decreases ops.len(),
{
    if ops.len() > 0 {
        let c2 = model_step(c, ops[0], timeout);
        assert(c2.state == ScanState::Stopped);
        lemma_stopped_clock_reports_nothing(c2, ops.drop_first(), timeout, k);
    }
}

/// However a clock is driven, the terminal shutdown signal is
/// delivered at most once.
pub proof fn lemma_shutdown_signal_at_most_once<KV>(
    c: ClockModel<KV>,
    ops: Seq<ClockOp<KV>>,
    timeout: u64,
)
    ensures
        shutdown_reports(c, ops, timeout) <= 1,
    decreases ops.len(),
{
    if ops.len() > 0 {
        let c2 = model_step(c, ops[0], timeout);
        if step_emits_shutdown(c, ops[0]) {
            assert(c2.state == ScanState::Stopped);
            lemma_stopped_clock_reports_nothing(c2, ops.drop_first(), timeout, arbitrary::<KV>());
        } else {
            lemma_shutdown_signal_at_most_once(c2, ops.drop_first(), timeout);
        }
    }
}

/// No timeout is ever reported after the shutdown signal: the step
/// that delivers it leaves the clock stopped for good.
pub proof fn lemma_no_timeout_after_shutdown_signal<KV>(
    c: ClockModel<KV>,
    op: ClockOp<KV>,
    ops: Seq<ClockOp<KV>>,
    timeout: u64,
    k: KV,
)
    requires
        step_emits_shutdown(c, op),
    ensures
        timeout_reports(model_step(c, op, timeout), ops, timeout, k) == 0,
{
    lemma_stopped_clock_reports_nothing(model_step(c, op, timeout), ops, timeout, k);
}

} // verus!
