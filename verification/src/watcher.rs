//! The rules of local change watching: which file system events ask for a
//! sync, and the debouncing that syncs a task once the delay has passed
//! with no further change.

use vstd::prelude::*;
use std::collections::HashMap;

verus! {

/// The kind of a file system event, as the watcher reports it.
#[derive(Debug, Clone, Copy, PartialEq, Eq, Structural)]
pub enum FsEventKind {
    Any,
    Access,
    Create,
    Modify,
    Remove,
    Other,
}

/// Whether an event of kind `kind` asks for a sync: a creation, a
/// modification or a removal does; any other event does not.
pub fn triggers_sync(kind: FsEventKind) -> (r: bool)
    ensures
        r == (kind == FsEventKind::Create || kind == FsEventKind::Modify || kind
            == FsEventKind::Remove),
{
    match kind {
        FsEventKind::Create | FsEventKind::Modify | FsEventKind::Remove => true,
        _ => false,
    }
}

/// The time from `last` to `now` (nanoseconds of a monotonic clock), zero
/// where `now` is earlier.
pub open spec fn elapsed(last: u128, now: u128) -> int {
    if now >= last {
        now - last
    } else {
        0
    }
}

/// A sync of `task_id` is due at `now`: a change was recorded for it and
/// none came in the last `delay` (the delay has run out since the latest
/// change).
pub open spec fn is_due(pending: Map<i64, u128>, delay: u128, task_id: i64, now: u128) -> bool {
    pending.contains_key(task_id) && elapsed(pending[task_id], now) >= delay
}

/// Taking a due sync at `now`: where one is due it fires once and the
/// task's change is cleared; otherwise nothing changes.
pub open spec fn take(pending: Map<i64, u128>, delay: u128, task_id: i64, now: u128) -> (
    bool,
    Map<i64, u128>,
) {
    if is_due(pending, delay, task_id, now) {
        (true, pending.remove(task_id))
    } else {
        (false, pending)
    }
}

/// Recording a change of `task_id` at `now`, then taking a due sync at the
/// same moment: the change restarts the task's delay, so the sync fires at
/// once only where the delay is zero.
pub open spec fn change_then_take(pending: Map<i64, u128>, delay: u128, task_id: i64, now: u128) -> (
    bool,
    Map<i64, u128>,
) {
    take(pending.insert(task_id, now), delay, task_id, now)
}

/// The latest unsynced change of each watched task, and the delay that
/// must pass without a further change before the task is synced.
pub struct Debouncer {
    pending: HashMap<i64, u128>,
    delay_nanos: u128,
}

impl Debouncer {
    /// The time of the latest unsynced change of each task.
    pub closed spec fn pending(&self) -> Map<i64, u128> {
        self.pending@
    }

    /// The delay in nanoseconds.
    pub closed spec fn delay(&self) -> u128 {
        self.delay_nanos
    }

    /// A debouncer with a delay of `debounce_delay_secs` seconds and no
    /// change recorded.
    pub fn new(debounce_delay_secs: u64) -> (d: Debouncer)
        ensures
            d.pending() == Map::<i64, u128>::empty(),
            d.delay() == debounce_delay_secs as int * 1_000_000_000,
    {
        let secs = debounce_delay_secs as u128;
        assert(secs * 1_000_000_000 <= u128::MAX) by (nonlinear_arith)
            requires
                secs <= u64::MAX,
        ;
        Debouncer { pending: HashMap::new(), delay_nanos: secs * 1_000_000_000 }
    }

    /// Records a change of `task_id` at `now`; a later change replaces an
    /// earlier one, so the delay starts again.
    pub fn note_change(&mut self, task_id: i64, now: u128)
        ensures
            final(self).pending() == old(self).pending().insert(task_id, now),
            final(self).delay() == old(self).delay(),
    {
        broadcast use vstd::std_specs::hash::group_hash_axioms;
        self.pending.insert(task_id, now);
    }

    /// Whether a sync of `task_id` is due at `now`: a change is recorded and
    /// the delay has run out since the latest one.
    pub fn due(&self, task_id: i64, now: u128) -> (r: bool)
        ensures
            r == is_due(self.pending(), self.delay(), task_id, now),
    {
        broadcast use vstd::std_specs::hash::group_hash_axioms;
        match self.pending.get(&task_id) {
            Some(last) => {
                let waited = if now >= *last {
                    now - *last
                } else {
                    0
                };
                waited >= self.delay_nanos
            },
            None => false,
        }
    }

    /// Fires a due sync of `task_id` at `now` once: where one is due, the
    /// change is cleared and `true` returned; otherwise nothing changes.
    pub fn take_due(&mut self, task_id: i64, now: u128) -> (r: bool)
        ensures
            (r, final(self).pending()) == take(old(self).pending(), old(self).delay(), task_id, now),
            final(self).delay() == old(self).delay(),
    {
        broadcast use vstd::std_specs::hash::group_hash_axioms;
        if self.due(task_id, now) {
            self.pending.remove(&task_id);
            true
        } else {
            false
        }
    }

    /// Records a change of `task_id` at `now` and says whether a sync fires
    /// at once: only where the delay is zero. Otherwise the sync waits until
    /// the delay has passed with no further change ([`Debouncer::take_due`]).
    pub fn should_trigger(&mut self, task_id: i64, now: u128) -> (r: bool)
        ensures
            (r, final(self).pending()) == change_then_take(
                old(self).pending(),
                old(self).delay(),
                task_id,
                now,
            ),
            final(self).delay() == old(self).delay(),
    {
        self.note_change(task_id, now);
        self.take_due(task_id, now)
    }

    /// Forgets the change of `task_id`.
    pub fn forget(&mut self, task_id: i64)
        ensures
            final(self).pending() == old(self).pending().remove(task_id),
            final(self).delay() == old(self).delay(),
    {
        broadcast use vstd::std_specs::hash::group_hash_axioms;
        self.pending.remove(&task_id);
    }

    /// Forgets every change.
    pub fn forget_all(&mut self)
        ensures
            final(self).pending() == Map::<i64, u128>::empty(),
            final(self).delay() == old(self).delay(),
    {
        self.pending.clear();
    }
}

/// A change holds its sync back for the whole delay: after a change at
/// `t1`, no sync of the task is due at any `t2` from `t1` to less than the
/// delay later, and a change with a non-zero delay does not fire at once.
pub proof fn law_debounce_waits(
    pending: Map<i64, u128>,
    delay: u128,
    task_id: i64,
    t1: u128,
    t2: u128,
)
    requires
        t1 <= t2,
        t2 - t1 < delay,
    ensures
        !is_due(pending.insert(task_id, t1), delay, task_id, t2),
        !change_then_take(pending, delay, task_id, t1).0,
{
}

/// Once the delay has passed since the latest change, the sync is due and
/// fires exactly once: taking it again before a new change finds nothing.
pub proof fn law_debounce_fires_once(
    pending: Map<i64, u128>,
    delay: u128,
    task_id: i64,
    t1: u128,
    t2: u128,
    t3: u128,
)
    requires
        t1 <= t2,
        t2 - t1 >= delay,
    ensures
        take(pending.insert(task_id, t1), delay, task_id, t2).0,
        !take(take(pending.insert(task_id, t1), delay, task_id, t2).1, delay, task_id, t3).0,
{
}

/// A further change restarts the delay: after changes at `t1` and then
/// `t2`, the sync is not due before the delay has passed since `t2`.
pub proof fn law_debounce_restarts(
    pending: Map<i64, u128>,
    delay: u128,
    task_id: i64,
    t1: u128,
    t2: u128,
    t3: u128,
)
    requires
        t1 <= t2 <= t3,
        t3 - t2 < delay,
    ensures
        !is_due(pending.insert(task_id, t1).insert(task_id, t2), delay, task_id, t3),
{
}

/// Taking a due sync concerns one task alone: every other task keeps the
/// change recorded for it. The sync fires exactly when a change of the task
/// was recorded and at least `delay` has passed since it (no time where the
/// clock reads earlier), and firing clears that change; otherwise nothing
/// changes. Recording a change and taking at once touches no other task
/// either.
pub proof fn law_take_is_per_task(pending: Map<i64, u128>, delay: u128, task_id: i64, now: u128)
    ensures
        take(pending, delay, task_id, now).1.remove(task_id) == pending.remove(task_id),
        take(pending, delay, task_id, now).0 <==> pending.contains_key(task_id) && (if now
            >= pending[task_id] {
            now - pending[task_id]
        } else {
            0
        }) >= delay,
        take(pending, delay, task_id, now).0 ==> !take(pending, delay, task_id, now).1.contains_key(
            task_id,
        ),
        !take(pending, delay, task_id, now).0 ==> take(pending, delay, task_id, now).1 == pending,
        change_then_take(pending, delay, task_id, now).1.remove(task_id) == pending.remove(task_id),
        change_then_take(pending, delay, task_id, now).0 <==> delay == 0,
{
    assert(take(pending, delay, task_id, now).1.remove(task_id) =~= pending.remove(task_id));
    assert(change_then_take(pending, delay, task_id, now).1.remove(task_id) =~= pending.remove(
        task_id,
    ));
}

} // verus!
