//! The repair queue: versions waiting for repair, started smallest first under
//! the idleness policy and one permit of the process-wide pool each.
use vstd::prelude::*;

use crate::capacity::shrink_if_sparse;
use crate::metrics::{add_count, count_up};
use crate::repair_lock::{
    RepairLockPool,
    RepairLockView,
    lock_acquire,
    lock_release,
    lock_wf,
};
use crate::todo::{
    Task,
    TaskView,
    insert_version,
    lemma_orders_total,
    lemma_sorted_insert_at,
    lemma_sorted_insert_sorted,
    sorted_by,
    sorted_insert,
    version_order,
};
use crate::version::{ObjectVersion, RepairIdleness};

verus! {

/// Mathematical state of a repair queue executor.
pub struct RepairView {
    /// Versions waiting for repair, ascending.
    pub queue: Seq<u64>,
    /// The current task: idle, or one running repair.
    pub task: TaskView,
    /// The admission policy.
    pub idleness: RepairIdleness,
    /// The last instant at which a repair was seen running.
    pub last_not_idle: u64,
    /// How many repairs ended in failure.
    pub failures: u64,
}

/// The queue is ascending and the task is idle or a repair.
pub open spec fn repair_wf(s: RepairView) -> bool {
    &&& sorted_by(s.queue, version_order())
    &&& (s.task is Idle || s.task is Repair)
}

/// Milliseconds from `last` to `now`, or zero when `now` is not later.
pub open spec fn elapsed_since(now: u64, last: u64) -> u64 {
    if now >= last {
        (now - last) as u64
    } else {
        0
    }
}

/// The current task may be replaced: it is idle, or it has ended.
pub open spec fn repair_ready(s: RepairView, finished: bool) -> bool {
    s.task is Idle || finished
}

/// One poll of the repair queue at `now`; `finished` says that the running
/// repair has ended. Returns the new state and the new state of the permit pool.
///
/// A running repair marks `now` as not idle. Once the task has ended its
/// permit goes back. Then, under `Threshold(d)`, the smallest waiting version
/// starts if no repair was seen running for at least `d` milliseconds and a
/// permit is free; otherwise it keeps waiting.
pub open spec fn repair_step(s: RepairView, l: RepairLockView, finished: bool, now: u64) -> (
    RepairView,
    RepairLockView,
) {
    let last = if !(s.task is Idle || s.task is Wait) {
        now
    } else {
        s.last_not_idle
    };
    if !repair_ready(s, finished) {
        (RepairView { last_not_idle: last, ..s }, l)
    } else {
        let l1 = if s.task is Repair {
            lock_release(l)
        } else {
            l
        };
        let idle = RepairView { task: TaskView::Idle, last_not_idle: last, ..s };
        match s.idleness {
            RepairIdleness::Disabled => (idle, l1),
            RepairIdleness::Threshold(d) => {
                if s.queue.len() == 0 || elapsed_since(now, last) < d || !lock_acquire(l1).1 {
                    (idle, l1)
                } else {
                    (
                        RepairView {
                            queue: s.queue.drop_first(),
                            task: TaskView::Repair { version: ObjectVersion(s.queue[0]) },
                            last_not_idle: now,
                            ..s
                        },
                        lock_acquire(l1).0,
                    )
                }
            },
        }
    }
}

/// The state once the outcome of the repair that ended is counted: `finished`
/// says the running repair ended, `succeeded` that it rebuilt its fragment.
pub open spec fn repair_count_outcome(s: RepairView, finished: bool, succeeded: bool) -> RepairView {
    if s.task is Repair && finished && !succeeded {
        RepairView { failures: count_up(s.failures, 1), ..s }
    } else {
        s
    }
}

/// The state after `version` was queued.
pub open spec fn repair_push(s: RepairView, version: ObjectVersion) -> RepairView {
    RepairView { queue: sorted_insert(s.queue, version.0, version_order()), ..s }
}

/// An input to the repair queue: a version to queue, or a poll made while the
/// permit pool is in the state `locks`.
pub enum RepairInput {
    Push { version: ObjectVersion },
    Poll { finished: bool, succeeded: bool, now: u64, locks: RepairLockView },
}

/// The state after one input.
pub open spec fn repair_apply(s: RepairView, input: RepairInput) -> RepairView {
    match input {
        RepairInput::Push { version } => repair_push(s, version),
        RepairInput::Poll { finished, succeeded, now, locks } => repair_step(
            repair_count_outcome(s, finished, succeeded),
            locks,
            finished,
            now,
        ).0,
    }
}

/// The version whose repair the input starts, if any.
pub open spec fn repair_started(s: RepairView, input: RepairInput) -> Option<ObjectVersion> {
    match input {
        RepairInput::Push { .. } => None,
        RepairInput::Poll { finished, succeeded, now, locks } => {
            let next = repair_step(repair_count_outcome(s, finished, succeeded), locks, finished, now).0;
            if repair_ready(s, finished) && next.task is Repair {
                Some(next.task->Repair_version)
            } else {
                None
            }
        },
    }
}

/// A repair runs while the input is applied: one was running, or it starts one.
pub open spec fn repair_busy(s: RepairView, input: RepairInput) -> bool {
    s.task is Repair || repair_started(s, input) is Some
}

/// The state after a sequence of inputs.
pub open spec fn repair_run(s: RepairView, inputs: Seq<RepairInput>) -> RepairView
    decreases inputs.len(),
{
    if inputs.len() == 0 {
        s
    } else {
        repair_apply(repair_run(s, inputs.drop_last()), inputs.last())
    }
}

/// Running a prefix one input longer applies that input.
pub proof fn lemma_repair_run_take(s: RepairView, inputs: Seq<RepairInput>, m: int)
    requires
        0 <= m < inputs.len(),
    ensures
        repair_run(s, inputs.take(m + 1)) == repair_apply(repair_run(s, inputs.take(m)), inputs[m]),
{
    assert(inputs.take(m + 1).drop_last() =~= inputs.take(m));
}

/// One input keeps the queue well formed; a start takes the smallest waiting
/// version, and otherwise a poll leaves the queue as it is.
proof fn lemma_apply_queue(s: RepairView, input: RepairInput)
    requires
        repair_wf(s),
    ensures
        repair_wf(repair_apply(s, input)),
        repair_apply(s, input).idleness == s.idleness,
        repair_started(s, input) matches Some(v) ==> s.queue.len() > 0 && v.0 == s.queue[0]
            && repair_apply(s, input).queue == s.queue.drop_first(),
        (input is Poll && repair_started(s, input) is None) ==> repair_apply(s, input).queue
            == s.queue,
        input matches RepairInput::Push { version } ==> repair_apply(s, input).queue
            == sorted_insert(s.queue, version.0, version_order()),
{
    lemma_orders_total();
    match input {
        RepairInput::Push { version } => {
            lemma_sorted_insert_sorted(s.queue, version.0, version_order());
        },
        RepairInput::Poll { .. } => {
            if s.queue.len() > 0 {
                lemma_sorted_tail(s.queue);
            }
        },
    }
}

proof fn lemma_queued_stays(s: RepairView, inputs: Seq<RepairInput>, u: u64, m: int)
    requires
        repair_wf(s),
        s.queue.contains(u),
        0 <= m <= inputs.len(),
        forall|j: int|
            0 <= j < m ==> #[trigger] repair_started(repair_run(s, inputs.take(j)), inputs[j])
                != Some(ObjectVersion(u)),
    ensures
        repair_wf(repair_run(s, inputs.take(m))),
        repair_run(s, inputs.take(m)).queue.contains(u),
    decreases m,
{
    broadcast use vstd::seq_lib::group_to_multiset_ensures;

    if m == 0 {
        assert(inputs.take(0) =~= Seq::<RepairInput>::empty());
    } else {
        lemma_queued_stays(s, inputs, u, m - 1);
        lemma_repair_run_take(s, inputs, m - 1);
        let t = repair_run(s, inputs.take(m - 1));
        let input = inputs[m - 1];
        assert(repair_started(t, input) != Some(ObjectVersion(u)));
        lemma_apply_queue(t, input);
        lemma_orders_total();
        match input {
            RepairInput::Push { version } => {
                lemma_sorted_insert_sorted(t.queue, version.0, version_order());
                let r = sorted_insert(t.queue, version.0, version_order());
                assert(t.queue.to_multiset().count(u) > 0);
                assert(r.to_multiset().count(u) > 0);
                assert(r.contains(u));
            },
            RepairInput::Poll { .. } => {
                if repair_started(t, input) is Some {
                    let idx = choose|idx: int| 0 <= idx < t.queue.len() && t.queue[idx] == u;
                    assert(idx != 0);
                    assert(t.queue.drop_first()[idx - 1] == u);
                }
            },
        }
    }
}

/// Repairs start in ascending version order: while a smaller version waits in
/// the queue, no larger version starts, whether it was queued before or after.
pub proof fn lemma_smaller_version_starts_first(
    s: RepairView,
    inputs: Seq<RepairInput>,
    u: u64,
    v: u64,
    k: int,
)
    requires
        repair_wf(s),
        s.queue.contains(u),
        u < v,
        0 <= k < inputs.len(),
        forall|j: int|
            0 <= j < k ==> #[trigger] repair_started(repair_run(s, inputs.take(j)), inputs[j])
                != Some(ObjectVersion(u)),
    ensures
        repair_started(repair_run(s, inputs.take(k)), inputs[k]) != Some(ObjectVersion(v)),
{
    lemma_queued_stays(s, inputs, u, k);
    let t = repair_run(s, inputs.take(k));
    lemma_apply_queue(t, inputs[k]);
    let idx = choose|idx: int| 0 <= idx < t.queue.len() && t.queue[idx] == u;
    if idx > 0 {
        assert((version_order())(t.queue[0], t.queue[idx]));
    }
}

/// How many of the given queues run a repair.
pub open spec fn running_count(qs: Seq<RepairView>) -> nat
    decreases qs.len(),
{
    if qs.len() == 0 {
        0
    } else {
        running_count(qs.drop_last()) + if qs.last().task is Repair {
            1nat
        } else {
            0nat
        }
    }
}

proof fn lemma_running_count_update(qs: Seq<RepairView>, i: int, q: RepairView)
    requires
        0 <= i < qs.len(),
    ensures
        running_count(qs.update(i, q)) + (if qs[i].task is Repair {
            1int
        } else {
            0int
        }) == running_count(qs) + (if q.task is Repair {
            1int
        } else {
            0int
        }),
    decreases qs.len(),
{
    let u = qs.update(i, q);
    if i < qs.len() - 1 {
        assert(u.drop_last() =~= qs.drop_last().update(i, q));
        lemma_running_count_update(qs.drop_last(), i, q);
    } else {
        assert(u.drop_last() =~= qs.drop_last());
    }
}

/// Every running repair holds one permit of the shared pool. If the held
/// permits equal the running repairs across all queues, a poll of any one queue
/// keeps them equal, and the running repairs never exceed the pool's capacity.
pub proof fn lemma_repairs_within_capacity(
    qs: Seq<RepairView>,
    l: RepairLockView,
    i: int,
    finished: bool,
    succeeded: bool,
    now: u64,
)
    requires
        lock_wf(l),
        l.in_use == running_count(qs),
        0 <= i < qs.len(),
        repair_wf(qs[i]),
    ensures
        ({
            let (q, l2) = repair_step(repair_count_outcome(qs[i], finished, succeeded), l, finished, now);
            &&& lock_wf(l2)
            &&& l2.capacity == l.capacity
            &&& l2.in_use == running_count(qs.update(i, q))
            &&& running_count(qs.update(i, q)) <= l.capacity
        }),
{
    let (q, l2) = repair_step(repair_count_outcome(qs[i], finished, succeeded), l, finished, now);
    lemma_running_count_update(qs, i, q);
    if qs[i].task is Repair {
        lemma_running_count_update(qs, i, RepairView { task: TaskView::Idle, ..qs[i] });
        assert(l.in_use >= 1);
    }
    if q.task is Repair && !(qs[i].task is Repair) {
        assert(l2.in_use == l.in_use + 1);
    }
}

/// The time of a poll.
pub open spec fn poll_time(input: RepairInput) -> u64 {
    match input {
        RepairInput::Poll { now, .. } => now,
        RepairInput::Push { .. } => 0,
    }
}

/// Polls come at nondecreasing times, none before `last`.
pub open spec fn polls_ordered(inputs: Seq<RepairInput>, last: u64) -> bool {
    &&& forall|i: int| 0 <= i < inputs.len() && #[trigger] inputs[i] is Poll ==> last <= poll_time(inputs[i])
    &&& forall|i: int, j: int|
        0 <= i < j < inputs.len() && #[trigger] inputs[i] is Poll && #[trigger] inputs[j] is Poll
            ==> poll_time(inputs[i]) <= poll_time(inputs[j])
}

proof fn lemma_last_bounded(s: RepairView, inputs: Seq<RepairInput>, m: int)
    requires
        repair_wf(s),
        polls_ordered(inputs, s.last_not_idle),
        0 <= m <= inputs.len(),
    ensures
        repair_wf(repair_run(s, inputs.take(m))),
        repair_run(s, inputs.take(m)).idleness == s.idleness,
        s.last_not_idle <= repair_run(s, inputs.take(m)).last_not_idle,
        forall|i: int|
            m <= i < inputs.len() && #[trigger] inputs[i] is Poll ==> repair_run(
                s,
                inputs.take(m),
            ).last_not_idle <= poll_time(inputs[i]),
    decreases m,
{
    if m == 0 {
        assert(inputs.take(0) =~= Seq::<RepairInput>::empty());
    } else {
        lemma_last_bounded(s, inputs, m - 1);
        lemma_repair_run_take(s, inputs, m - 1);
        lemma_apply_queue(repair_run(s, inputs.take(m - 1)), inputs[m - 1]);
    }
}

proof fn lemma_last_monotone(s: RepairView, inputs: Seq<RepairInput>, a: int, b: int)
    requires
        repair_wf(s),
        polls_ordered(inputs, s.last_not_idle),
        0 <= a <= b <= inputs.len(),
    ensures
        repair_run(s, inputs.take(a)).last_not_idle <= repair_run(s, inputs.take(b)).last_not_idle,
    decreases b - a,
{
    if a < b {
        lemma_last_monotone(s, inputs, a, b - 1);
        lemma_last_bounded(s, inputs, b - 1);
        lemma_repair_run_take(s, inputs, b - 1);
    }
}

/// Under a fixed `Threshold(d)`, a repair that starts at instant `t` finds no
/// repair seen running during `[t - d, t)`: every poll that saw a repair
/// running, or started one, came at least `d` milliseconds before.
pub proof fn lemma_idleness_admission(
    s: RepairView,
    inputs: Seq<RepairInput>,
    d: u64,
    j: int,
    k: int,
)
    requires
        repair_wf(s),
        s.idleness == RepairIdleness::Threshold(d),
        polls_ordered(inputs, s.last_not_idle),
        0 <= j < k < inputs.len(),
        inputs[j] is Poll,
        repair_busy(repair_run(s, inputs.take(j)), inputs[j]),
        repair_started(repair_run(s, inputs.take(k)), inputs[k]) is Some,
    ensures
        poll_time(inputs[j]) + d <= poll_time(inputs[k]),
{
    lemma_last_bounded(s, inputs, j);
    lemma_repair_run_take(s, inputs, j);
    lemma_last_monotone(s, inputs, j + 1, k);
    lemma_last_bounded(s, inputs, k);
}

/// Executor that repairs the versions handed to it, smallest first.
pub struct RepairQueueExecutor {
    queue: Vec<u64>,
    task: Task,
    repair_idleness_threshold: RepairIdleness,
    last_not_idle: u64,
    failures: u64,
}

impl View for RepairQueueExecutor {
    type V = RepairView;

    closed spec fn view(&self) -> RepairView {
        RepairView {
            queue: self.queue@,
            task: self.task@,
            idleness: self.repair_idleness_threshold,
            last_not_idle: self.last_not_idle,
            failures: self.failures,
        }
    }
}

/// Putting back the smallest element of an ascending sequence restores it.
proof fn lemma_reinsert_head(s: Seq<u64>)
    requires
        sorted_by(s, version_order()),
        s.len() > 0,
    ensures
        sorted_insert(s.drop_first(), s[0], version_order()) == s,
{
    let t = s.drop_first();
    if t.len() > 0 {
        assert(s[0] <= s[1]);
    }
    lemma_sorted_insert_at(t, s[0], version_order(), 0);
    assert(t.insert(0, s[0]) =~= s);
}

/// The rest of an ascending sequence is ascending.
proof fn lemma_sorted_tail(s: Seq<u64>)
    requires
        sorted_by(s, version_order()),
        s.len() > 0,
    ensures
        sorted_by(s.drop_first(), version_order()),
{
    let t = s.drop_first();
    assert forall|i: int, j: int| 0 <= i < j < t.len() implies (version_order())(
        #[trigger] t[i],
        #[trigger] t[j],
    ) by {
        assert(t[i] == s[i + 1] && t[j] == s[j + 1]);
    }
}

impl RepairQueueExecutor {
    /// An executor with an empty queue, repairs disabled, last seen busy at `now`.
    pub fn new(now: u64) -> (r: RepairQueueExecutor)
        ensures
            r@ == (RepairView {
                queue: Seq::empty(),
                task: TaskView::Idle,
                idleness: RepairIdleness::Disabled,
                last_not_idle: now,
                failures: 0,
            }),
            repair_wf(r@),
    {
        RepairQueueExecutor {
            queue: Vec::new(),
            task: Task::Idle,
            repair_idleness_threshold: RepairIdleness::Disabled,
            last_not_idle: now,
            failures: 0,
        }
    }

    /// How many repairs ended in failure so far.
    pub fn failures(&self) -> (r: u64)
        ensures
            r == self@.failures,
    {
        self.failures
    }

    /// The current task.
    pub fn task(&self) -> (r: &Task)
        ensures
            r@ == self@.task,
    {
        &self.task
    }

    /// The admission policy in force.
    pub fn repair_idleness_threshold(&self) -> (r: RepairIdleness)
        ensures
            r == self@.idleness,
    {
        self.repair_idleness_threshold
    }

    /// Queues `version` for repair.
    pub fn push(&mut self, version: ObjectVersion)
        requires
            repair_wf(old(self)@),
        ensures
            repair_wf(final(self)@),
            final(self)@ == repair_push(old(self)@, version),
    {
        proof {
            lemma_orders_total();
            lemma_sorted_insert_sorted(self.queue@, version.0, version_order());
        }
        insert_version(&mut self.queue, version.0);
    }

    /// Takes the smallest waiting version, if any.
    pub fn pop(&mut self) -> (r: Option<ObjectVersion>)
        requires
            repair_wf(old(self)@),
        ensures
            repair_wf(final(self)@),
            old(self)@.queue.len() == 0 ==> r is None && final(self)@ == old(self)@,
            old(self)@.queue.len() > 0 ==> r == Some(ObjectVersion(old(self)@.queue[0]))
                && final(self)@ == (RepairView { queue: old(self)@.queue.drop_first(), ..old(self)@ }),
    {
        if self.queue.len() == 0 {
            None
        } else {
            proof {
                lemma_sorted_tail(self.queue@);
            }
            let v = self.queue.remove(0);
            shrink_if_sparse(&mut self.queue);
            Some(ObjectVersion(v))
        }
    }

    /// Replaces the admission policy.
    pub fn set_repair_idleness_threshold(&mut self, repair_idleness_threshold: RepairIdleness)
        requires
            repair_wf(old(self)@),
        ensures
            repair_wf(final(self)@),
            final(self)@ == (RepairView { idleness: repair_idleness_threshold, ..old(self)@ }),
    {
        self.repair_idleness_threshold = repair_idleness_threshold;
    }

    /// Polls the executor at wall-clock instant `now`; `finished` says that the
    /// running repair has ended, `succeeded` that it rebuilt its fragment. A
    /// repair that starts takes a permit from `locks`; one that has ended gives
    /// its permit back, and counts as a failure unless it succeeded.
    pub fn poll(&mut self, finished: bool, succeeded: bool, now: u64, locks: &mut RepairLockPool)
        requires
            repair_wf(old(self)@),
            lock_wf(old(locks)@),
        ensures
            repair_wf(final(self)@),
            lock_wf(final(locks)@),
            (final(self)@, final(locks)@) == repair_step(
                repair_count_outcome(old(self)@, finished, succeeded),
                old(locks)@,
                finished,
                now,
            ),
    {
        if let Task::Repair { .. } = self.task {
            if finished && !succeeded {
                self.failures = add_count(self.failures, 1);
            }
        }
        if !self.task.is_sleeping() {
            self.last_not_idle = now;
        }
        let ready = match self.task {
            Task::Idle => true,
            _ => finished,
        };
        if !ready {
            return ;
        }
        if let Task::Repair { .. } = self.task {
            locks.release_repair_lock();
        }
        self.task = Task::Idle;
        if let RepairIdleness::Threshold(threshold) = self.repair_idleness_threshold {
            let ghost before = self@;
            if let Some(version) = self.pop() {
                let elapsed = if now >= self.last_not_idle {
                    now - self.last_not_idle
                } else {
                    0
                };
                if elapsed < threshold {
                    proof {
                        lemma_reinsert_head(before.queue);
                    }
                    self.push(version);
                } else if locks.acquire_repair_lock() {
                    self.task = Task::Repair { version };
                    self.last_not_idle = now;
                } else {
                    proof {
                        lemma_reinsert_head(before.queue);
                    }
                    self.push(version);
                }
            }
        }
    }
}

} // verus!
