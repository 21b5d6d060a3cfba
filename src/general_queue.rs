//! The general queue: repair preparations ordered by start instant, and deletions in arrival order.
//!
//! The executor runs one task at a time. Each call of `poll` reports that the
//! current task has ended (an idle or sleeping slot counts as ended when the
//! caller polls it) and decides the next task.
use vstd::prelude::*;

use std::collections::BTreeSet;
use std::collections::VecDeque;

use crate::capacity::{shrink_deque_if_sparse, shrink_if_sparse};
use crate::event::Event;
use crate::metrics::{QueueCounters, add_count, count_up, zero_counters};
use crate::todo::{
    MAX_WAIT_MILLIS,
    PrepEntry,
    Task,
    TaskView,
    TodoItem,
    TodoView,
    event_schedulable,
    insert_prep_entry,
    lemma_orders_total,
    lemma_sorted_insert_sorted,
    prep_order,
    sorted_by,
    sorted_insert,
};
use crate::version::{MILLIS_PER_SECOND, ObjectVersion};

verus! {

/// Mathematical state of a general queue executor.
pub struct GeneralView {
    /// Pending repair preparations, ascending by start instant and version.
    pub prep: Seq<PrepEntry>,
    /// Versions to delete, oldest first.
    pub deletes: Seq<ObjectVersion>,
    /// Versions whose put has not been deleted since; only these may be prepared.
    pub candidates: Set<u64>,
    /// The current task.
    pub task: TaskView,
    /// Items put into and taken out of the two queues.
    pub counters: QueueCounters,
}

/// The pending preparations are in order.
pub open spec fn general_wf(s: GeneralView) -> bool {
    sorted_by(s.prep, prep_order())
}

/// The state after `event` was pushed at wall-clock instant `now`.
pub open spec fn general_push(s: GeneralView, event: Event, now: u64) -> GeneralView {
    match event {
        Event::Putted { version, put_content_timeout } => GeneralView {
            prep: sorted_insert(
                s.prep,
                PrepEntry {
                    start_time: (now + put_content_timeout * MILLIS_PER_SECOND) as u64,
                    version,
                },
                prep_order(),
            ),
            candidates: s.candidates.insert(version.0),
            counters: QueueCounters {
                enqueued_repair: count_up(s.counters.enqueued_repair, 1),
                ..s.counters
            },
            ..s
        },
        Event::Deleted { version } => GeneralView {
            deletes: s.deletes.push(version),
            candidates: s.candidates.remove(version.0),
            counters: QueueCounters {
                enqueued_delete: count_up(s.counters.enqueued_delete, 1),
                ..s.counters
            },
            ..s
        },
        Event::FullSync { .. } => s,
    }
}

/// The instant until which a repair starting at `start_time` makes the queue sleep at `now`.
pub open spec fn wait_until(start_time: u64, now: u64) -> u64 {
    if start_time - now < MAX_WAIT_MILLIS {
        start_time
    } else {
        (now + MAX_WAIT_MILLIS) as u64
    }
}

/// The state after the first pending preparation was taken out of its queue.
pub open spec fn take_prep(s: GeneralView) -> GeneralView {
    GeneralView {
        prep: s.prep.drop_first(),
        counters: QueueCounters {
            dequeued_repair: count_up(s.counters.dequeued_repair, 1),
            ..s.counters
        },
        ..s
    }
}

/// Taking the next work item at `now`, from an idle state.
///
/// Preparations whose version is no longer a candidate are dropped. A
/// preparation whose start lies ahead puts the queue to sleep, for at most
/// `MAX_WAIT_MILLIS`, and is queued again. Deletions come only when no
/// preparation is queued. The counters count every item taken out of a queue
/// and put back in.
pub open spec fn general_pop(s: GeneralView, now: u64) -> (GeneralView, Option<TodoView>)
    decreases s.prep.len(),
{
    if s.prep.len() > 0 {
        let head = s.prep[0];
        if !s.candidates.contains(head.version.0) {
            general_pop(take_prep(s), now)
        } else if head.start_time > now {
            (
                GeneralView {
                    task: TaskView::Wait { until: wait_until(head.start_time, now) },
                    counters: QueueCounters {
                        enqueued_repair: count_up(s.counters.enqueued_repair, 1),
                        dequeued_repair: count_up(s.counters.dequeued_repair, 1),
                        ..s.counters
                    },
                    ..s
                },
                None,
            )
        } else {
            (
                take_prep(s),
                Some(TodoView::RepairContent { start_time: head.start_time, version: head.version }),
            )
        }
    } else if s.deletes.len() > 0 {
        (
            GeneralView {
                deletes: s.deletes.drop_first(),
                counters: QueueCounters {
                    dequeued_delete: count_up(s.counters.dequeued_delete, 1),
                    ..s.counters
                },
                ..s
            },
            Some(TodoView::DeleteContent { versions: seq![s.deletes[0]] }),
        )
    } else {
        (s, None)
    }
}

/// One step at `now` after the current task ended; `prepared` says that a
/// finished preparation found its version in need of repair.
///
/// A needed repair is handed on and the slot becomes idle; otherwise the next
/// work item becomes the task.
pub open spec fn general_step(s: GeneralView, prepared: bool, now: u64) -> (
    GeneralView,
    Option<ObjectVersion>,
) {
    let idle = GeneralView { task: TaskView::Idle, ..s };
    if prepared && s.task is RepairPrep {
        (idle, Some(s.task->RepairPrep_version))
    } else {
        let (p, item) = general_pop(idle, now);
        match item {
            Some(TodoView::DeleteContent { versions }) => (
                GeneralView { task: TaskView::Delete { versions }, ..p },
                None,
            ),
            Some(TodoView::RepairContent { version, .. }) => (
                GeneralView { task: TaskView::RepairPrep { version }, ..p },
                None,
            ),
            None => (p, None),
        }
    }
}

/// The state after the repair of `version` succeeded: it is no candidate any more.
pub open spec fn general_repair_succeeded(s: GeneralView, version: ObjectVersion) -> GeneralView {
    GeneralView { candidates: s.candidates.remove(version.0), ..s }
}

/// The value of an optional work item.
pub open spec fn todo_opt_view(item: Option<TodoItem>) -> Option<TodoView> {
    match item {
        Some(t) => Some(t@),
        None => None,
    }
}

/// An input to the general queue: an event, or the end of the current task.
pub enum GeneralInput {
    Push { event: Event, now: u64 },
    Poll { prepared: bool, now: u64 },
    RepairSucceeded { version: ObjectVersion },
}

/// The state after one input, and the version it hands on for repair, if any.
pub open spec fn general_apply(s: GeneralView, input: GeneralInput) -> (
    GeneralView,
    Option<ObjectVersion>,
) {
    match input {
        GeneralInput::Push { event, now } => (general_push(s, event, now), None),
        GeneralInput::Poll { prepared, now } => general_step(s, prepared, now),
        GeneralInput::RepairSucceeded { version } => (general_repair_succeeded(s, version), None),
    }
}

/// The state after a sequence of inputs.
pub open spec fn general_run(s: GeneralView, inputs: Seq<GeneralInput>) -> GeneralView
    decreases inputs.len(),
{
    if inputs.len() == 0 {
        s
    } else {
        general_apply(general_run(s, inputs.drop_last()), inputs.last()).0
    }
}

/// The input is a put of `v`.
pub open spec fn puts_version(input: GeneralInput, v: ObjectVersion) -> bool {
    match input {
        GeneralInput::Push { event: Event::Putted { version, .. }, .. } => version == v,
        _ => false,
    }
}

/// `v` is no candidate and is not being prepared.
pub open spec fn general_blocks(s: GeneralView, v: ObjectVersion) -> bool {
    !s.candidates.contains(v.0) && !(s.task matches TaskView::RepairPrep { version } && version
        == v)
}

/// Taking a work item leaves the candidates alone and prepares only a candidate.
pub proof fn lemma_pop_takes_candidate(s: GeneralView, now: u64)
    ensures
        general_pop(s, now).0.candidates == s.candidates,
        general_pop(s, now).0.task == s.task || general_pop(s, now).0.task is Wait,
        general_pop(s, now).1 matches Some(TodoView::RepairContent { version, .. })
            ==> s.candidates.contains(version.0),
    decreases s.prep.len(),
{
    if s.prep.len() > 0 && !s.candidates.contains(s.prep[0].version.0) {
        lemma_pop_takes_candidate(take_prep(s), now);
    }
}

/// Taking a work item from an idle state sleeps for at most `MAX_WAIT_MILLIS`.
pub proof fn lemma_pop_wait_bounded(s: GeneralView, now: u64)
    requires
        s.task is Idle,
    ensures
        general_pop(s, now).0.task matches TaskView::Wait { until } ==> now < until <= now
            + MAX_WAIT_MILLIS,
    decreases s.prep.len(),
{
    if s.prep.len() > 0 && !s.candidates.contains(s.prep[0].version.0) {
        lemma_pop_wait_bounded(take_prep(s), now);
    }
}

/// No pending repair preparation makes the general queue wait longer than
/// `MAX_WAIT_MILLIS` before it examines its queues again.
pub proof fn lemma_wait_bounded(s: GeneralView, prepared: bool, now: u64)
    ensures
        general_step(s, prepared, now).0.task matches TaskView::Wait { until } ==> now < until
            <= now + MAX_WAIT_MILLIS,
{
    lemma_pop_wait_bounded(GeneralView { task: TaskView::Idle, ..s }, now);
}

/// One input that is not a put of `v` keeps `v` blocked, and does not hand `v` on.
pub proof fn lemma_blocks_preserved(s: GeneralView, input: GeneralInput, v: ObjectVersion)
    requires
        general_blocks(s, v),
        !puts_version(input, v),
    ensures
        general_blocks(general_apply(s, input).0, v),
        general_apply(s, input).1 != Some(v),
{
    match input {
        GeneralInput::Push { event, now } => {},
        GeneralInput::Poll { prepared, now } => {
            lemma_pop_takes_candidate(GeneralView { task: TaskView::Idle, ..s }, now);
        },
        GeneralInput::RepairSucceeded { .. } => {},
    }
}

proof fn lemma_run_blocks(s: GeneralView, inputs: Seq<GeneralInput>, v: ObjectVersion)
    requires
        general_blocks(s, v),
        forall|i: int| 0 <= i < inputs.len() ==> !puts_version(#[trigger] inputs[i], v),
    ensures
        general_blocks(general_run(s, inputs), v),
    decreases inputs.len(),
{
    if inputs.len() > 0 {
        let front = inputs.drop_last();
        assert forall|i: int| 0 <= i < front.len() implies !puts_version(#[trigger] front[i], v) by {
            assert(front[i] == inputs[i]);
        }
        lemma_run_blocks(s, front, v);
        lemma_blocks_preserved(general_run(s, front), inputs.last(), v);
    }
}

/// A delete that arrives before the preparation of its version has started
/// cancels it: as long as the version is not put again, the general queue
/// never starts preparing it and never hands it on for repair.
pub proof fn lemma_deleted_before_prep_never_repaired(
    s: GeneralView,
    v: ObjectVersion,
    now: u64,
    inputs: Seq<GeneralInput>,
)
    requires
        !(s.task matches TaskView::RepairPrep { version } && version == v),
        forall|i: int| 0 <= i < inputs.len() ==> !puts_version(#[trigger] inputs[i], v),
    ensures
        forall|k: int|
            0 <= k <= inputs.len() ==> !(#[trigger] general_run(
                general_push(s, Event::Deleted { version: v }, now),
                inputs.take(k),
            ).task matches TaskView::RepairPrep { version } && version == v),
        forall|k: int|
            0 <= k < inputs.len() ==> #[trigger] general_apply(
                general_run(general_push(s, Event::Deleted { version: v }, now), inputs.take(k)),
                inputs[k],
            ).1 != Some(v),
{
    let s1 = general_push(s, Event::Deleted { version: v }, now);
    assert(general_blocks(s1, v));
    assert forall|k: int| 0 <= k <= inputs.len() implies general_blocks(
        general_run(s1, inputs.take(k)),
        v,
    ) by {
        let prefix = inputs.take(k);
        assert forall|i: int| 0 <= i < prefix.len() implies !puts_version(
            #[trigger] prefix[i],
            v,
        ) by {
            assert(prefix[i] == inputs[i]);
        }
        lemma_run_blocks(s1, prefix, v);
    }
    assert forall|k: int| 0 <= k < inputs.len() implies #[trigger] general_apply(
        general_run(s1, inputs.take(k)),
        inputs[k],
    ).1 != Some(v) by {
        assert(general_blocks(general_run(s1, inputs.take(k)), v));
        lemma_blocks_preserved(general_run(s1, inputs.take(k)), inputs[k], v);
    }
}

/// Executor of repair preparations and deletions for one segment replica.
pub struct GeneralQueueExecutor {
    repair_prep_queue: Vec<PrepEntry>,
    delete_queue: VecDeque<ObjectVersion>,
    task: Task,
    repair_candidates: BTreeSet<u64>,
    counters: QueueCounters,
}

impl View for GeneralQueueExecutor {
    type V = GeneralView;

    closed spec fn view(&self) -> GeneralView {
        GeneralView {
            prep: self.repair_prep_queue@,
            deletes: self.delete_queue@,
            candidates: self.repair_candidates@,
            task: self.task@,
            counters: self.counters,
        }
    }
}

proof fn lemma_sorted_drop_first(s: Seq<PrepEntry>)
    requires
        sorted_by(s, prep_order()),
        s.len() > 0,
    ensures
        sorted_by(s.drop_first(), prep_order()),
{
    let t = s.drop_first();
    assert forall|i: int, j: int| 0 <= i < j < t.len() implies (prep_order())(
        #[trigger] t[i],
        #[trigger] t[j],
    ) by {
        assert(t[i] == s[i + 1] && t[j] == s[j + 1]);
    }
}

impl GeneralQueueExecutor {
    /// An executor with empty queues and an idle task.
    pub fn new() -> (r: GeneralQueueExecutor)
        ensures
            r@ == (GeneralView {
                prep: Seq::empty(),
                deletes: Seq::empty(),
                candidates: Set::empty(),
                task: TaskView::Idle,
                counters: zero_counters(),
            }),
            general_wf(r@),
    {
        GeneralQueueExecutor {
            repair_prep_queue: Vec::new(),
            delete_queue: VecDeque::new(),
            task: Task::Idle,
            repair_candidates: BTreeSet::new(),
            counters: QueueCounters {
                enqueued_repair: 0,
                enqueued_delete: 0,
                dequeued_repair: 0,
                dequeued_delete: 0,
            },
        }
    }

    /// Items put into and taken out of the two queues so far.
    pub fn counters(&self) -> (r: QueueCounters)
        ensures
            r == self@.counters,
    {
        self.counters
    }

    /// Whether `version` may still be prepared for repair.
    pub fn is_repair_candidate(&self, version: ObjectVersion) -> (r: bool)
        ensures
            r == self@.candidates.contains(version.0),
    {
        broadcast use vstd::std_specs::btree::group_btree_axioms;
        broadcast use vstd::laws_cmp::group_laws_cmp;

        self.repair_candidates.contains(&version.0)
    }

    /// Records that the repair of `version` succeeded: it is no candidate any more.
    pub fn repair_succeeded(&mut self, version: ObjectVersion)
        requires
            general_wf(old(self)@),
        ensures
            general_wf(final(self)@),
            final(self)@ == general_repair_succeeded(old(self)@, version),
    {
        broadcast use vstd::std_specs::btree::group_btree_axioms;
        broadcast use vstd::laws_cmp::group_laws_cmp;

        self.repair_candidates.remove(&version.0);
    }

    /// The current task.
    pub fn task(&self) -> (r: &Task)
        ensures
            r@ == self@.task,
    {
        &self.task
    }

    /// Takes a `Putted` or `Deleted` event seen at wall-clock instant `now`.
    ///
    /// A put queues a repair preparation and makes its version a candidate; a
    /// delete withdraws the candidate and queues the deletion.
    pub fn push(&mut self, event: &Event, now: u64)
        requires
            general_wf(old(self)@),
            event_schedulable(*event, now),
        ensures
            general_wf(final(self)@),
            final(self)@ == general_push(old(self)@, *event, now),
    {
        broadcast use vstd::std_specs::btree::group_btree_axioms;
        broadcast use vstd::laws_cmp::group_laws_cmp;

        match event {
            Event::Putted { version, .. } => {
                let item = TodoItem::new(event, now);
                match item {
                    TodoItem::RepairContent { start_time, version } => {
                        let entry = PrepEntry { start_time, version };
                        proof {
                            lemma_orders_total();
                            lemma_sorted_insert_sorted(self.repair_prep_queue@, entry, prep_order());
                        }
                        insert_prep_entry(&mut self.repair_prep_queue, entry);
                    },
                    TodoItem::DeleteContent { .. } => {},
                }
                self.repair_candidates.insert(version.0);
                self.counters.enqueued_repair = add_count(self.counters.enqueued_repair, 1);
            },
            Event::Deleted { version } => {
                self.repair_candidates.remove(&version.0);
                self.delete_queue.push_back(*version);
                self.counters.enqueued_delete = add_count(self.counters.enqueued_delete, 1);
            },
            Event::FullSync { .. } => {},
        }
    }

    /// Takes the next work item at `now`, or puts the executor to sleep.
    pub fn pop(&mut self, now: u64) -> (r: Option<TodoItem>)
        requires
            general_wf(old(self)@),
            old(self)@.task is Idle,
        ensures
            general_wf(final(self)@),
            (final(self)@, todo_opt_view(r)) == general_pop(old(self)@, now),
    {
        broadcast use vstd::std_specs::btree::group_btree_axioms;
        broadcast use vstd::laws_cmp::group_laws_cmp;

        loop
            invariant
                general_wf(self@),
                self@.task is Idle,
                general_pop(self@, now) == general_pop(old(self)@, now),
            decreases self.repair_prep_queue.len(),
        {
            if self.repair_prep_queue.len() > 0 {
                let head = self.repair_prep_queue[0];
                if !self.repair_candidates.contains(&head.version.0) {
                    proof {
                        lemma_sorted_drop_first(self.repair_prep_queue@);
                    }
                    self.repair_prep_queue.remove(0);
                    shrink_if_sparse(&mut self.repair_prep_queue);
                    self.counters.dequeued_repair = add_count(self.counters.dequeued_repair, 1);
                } else if head.start_time > now {
                    let wait = head.start_time - now;
                    let until = if wait < MAX_WAIT_MILLIS {
                        head.start_time
                    } else {
                        now + MAX_WAIT_MILLIS
                    };
                    self.task = Task::Wait { until };
                    self.counters.dequeued_repair = add_count(self.counters.dequeued_repair, 1);
                    self.counters.enqueued_repair = add_count(self.counters.enqueued_repair, 1);
                    return None;
                } else {
                    proof {
                        lemma_sorted_drop_first(self.repair_prep_queue@);
                    }
                    self.repair_prep_queue.remove(0);
                    shrink_if_sparse(&mut self.repair_prep_queue);
                    self.counters.dequeued_repair = add_count(self.counters.dequeued_repair, 1);
                    return Some(
                        TodoItem::RepairContent { start_time: head.start_time, version: head.version },
                    );
                }
            } else {
                match self.delete_queue.pop_front() {
                    Some(version) => {
                        shrink_deque_if_sparse(&mut self.delete_queue);
                        self.counters.dequeued_delete = add_count(self.counters.dequeued_delete, 1);
                        let versions = vec![version];
                        assert(versions@ =~= seq![version]);
                        return Some(TodoItem::DeleteContent { versions });
                    },
                    None => {
                        return None;
                    },
                }
            }
        }
    }

    /// Ends the current task at wall-clock instant `now` and decides the next one.
    ///
    /// `prepared` says that the preparation that just ended found its version
    /// missing from the device; that version is returned, to be repaired.
    pub fn poll(&mut self, prepared: bool, now: u64) -> (r: Option<ObjectVersion>)
        requires
            general_wf(old(self)@),
        ensures
            general_wf(final(self)@),
            (final(self)@, r) == general_step(old(self)@, prepared, now),
    {
        let finished = match &self.task {
            Task::RepairPrep { version } => Some(*version),
            _ => None,
        };
        self.task = Task::Idle;
        if prepared && finished.is_some() {
            return finished;
        }
        match self.pop(now) {
            Some(TodoItem::DeleteContent { versions }) => {
                self.task = Task::Delete { versions };
            },
            Some(TodoItem::RepairContent { version, .. }) => {
                self.task = Task::RepairPrep { version };
            },
            None => {},
        }
        None
    }
}

} // verus!
