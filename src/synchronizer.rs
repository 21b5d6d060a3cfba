//! The synchronizer of one segment replica: it routes events to the general
//! queue and the sweep, and drives the sweep, the general queue and the repair
//! queue one step per poll.
use vstd::prelude::*;

use crate::event::{Event, snapshot_versions};
use crate::general_queue::{
    GeneralInput,
    GeneralQueueExecutor,
    GeneralView,
    general_blocks,
    general_push,
    general_repair_succeeded,
    general_step,
    general_wf,
    lemma_blocks_preserved,
};
use crate::lump::{LocalNodeId, LumpId};
use crate::metrics::{QueueCounters, count_up, zero_counters};
use crate::repair_lock::{RepairLockPool, RepairLockView, lock_wf};
use crate::repair_queue::{
    RepairQueueExecutor,
    RepairView,
    repair_count_outcome,
    repair_push,
    repair_step,
    repair_wf,
};
use crate::segment_gc::{GcView, SegmentGc, gc_deletions, gc_wf, gc_window_end};
use crate::todo::{Task, TaskView, lemma_sorted_insert_contains, version_order};
use crate::version::{MILLIS_PER_SECOND, ObjectVersion, RepairIdleness};

verus! {

/// Mathematical state of a synchronizer.
pub struct SyncView {
    pub node: u64,
    /// The segment keeps metadata only, with no payload on the device.
    pub is_metadata: bool,
    pub segment_gc: Option<GcView>,
    pub segment_gc_step: u64,
    pub general: GeneralView,
    pub repair: RepairView,
}

/// Every component is well formed, and a sweep belongs to this node.
pub open spec fn sync_wf(s: SyncView) -> bool {
    &&& s.node < crate::lump::LOCAL_NODE_ID_LIMIT
    &&& general_wf(s.general)
    &&& repair_wf(s.repair)
    &&& match s.segment_gc {
        Some(g) => gc_wf(g) && g.node == s.node,
        None => true,
    }
}

/// Whether an event can be handled at `now`: a put's start instant must be representable.
pub open spec fn sync_event_ok(event: Event, now: u64) -> bool {
    match event {
        Event::Putted { put_content_timeout, .. } => now + put_content_timeout
            * MILLIS_PER_SECOND <= u64::MAX,
        _ => true,
    }
}

/// The state after `event` at `now`.
///
/// A metadata-only segment ignores every event. Otherwise puts and deletes go
/// to the general queue, and a full sync starts a sweep unless one is active.
pub open spec fn sync_handle_event(s: SyncView, event: Event, now: u64) -> SyncView {
    if s.is_metadata {
        s
    } else {
        match event {
            Event::FullSync { machine, next_commit } => if s.segment_gc is None {
                SyncView {
                    segment_gc: Some(
                        GcView {
                            node: s.node,
                            live: snapshot_versions(machine@),
                            next_commit,
                            step: s.segment_gc_step,
                            lumps: None,
                            cursor: 0,
                            examined: 0,
                            deleted: 0,
                        },
                    ),
                    ..s
                }
            } else {
                s
            },
            _ => SyncView { general: general_push(s.general, event, now), ..s },
        }
    }
}

/// One poll of the sweep: its next window, and the sweep cleared once done,
/// which also resets its counters.
pub open spec fn sync_gc_step(gc: Option<GcView>) -> (Option<GcView>, Seq<LumpId>) {
    match gc {
        None => (None, Seq::empty()),
        Some(g) => match g.lumps {
            None => (Some(g), Seq::empty()),
            Some(ls) => {
                let end = gc_window_end(g.cursor, ls.len() as int, g.step);
                let deleted = gc_deletions(g.node, g.live, g.next_commit, ls.subrange(g.cursor, end));
                (
                    if end == ls.len() {
                        None
                    } else {
                        Some(
                            GcView {
                                cursor: end,
                                examined: count_up(g.examined, (end - g.cursor) as u64),
                                deleted: count_up(g.deleted, deleted.len() as u64),
                                ..g
                            },
                        )
                    },
                    deleted,
                )
            },
        },
    }
}

/// The general queue's state after a poll, and the version it hands on.
pub open spec fn sync_general_step(
    g: GeneralView,
    general_finished: bool,
    prepared: bool,
    now: u64,
) -> (GeneralView, Option<ObjectVersion>) {
    if g.task is Idle || general_finished {
        general_step(g, prepared, now)
    } else {
        (g, None)
    }
}

/// The repair queue after it received what the general queue handed on.
pub open spec fn sync_forward(r: RepairView, handed: Option<ObjectVersion>) -> RepairView {
    match handed {
        Some(v) => repair_push(r, v),
        None => r,
    }
}

/// One driving step: the new state, the new permit pool, and the fragments
/// the sweep deletes.
pub open spec fn sync_poll(
    s: SyncView,
    l: RepairLockView,
    general_finished: bool,
    prepared: bool,
    repair_finished: bool,
    repair_succeeded: bool,
    now: u64,
) -> (SyncView, RepairLockView, Seq<LumpId>) {
    let (gc, deleted) = sync_gc_step(s.segment_gc);
    let (stepped, handed) = sync_general_step(s.general, general_finished, prepared, now);
    let general = if repair_finished && repair_succeeded && s.repair.task is Repair {
        general_repair_succeeded(stepped, s.repair.task->Repair_version)
    } else {
        stepped
    };
    let (repair, l2) = repair_step(
        repair_count_outcome(sync_forward(s.repair, handed), repair_finished, repair_succeeded),
        l,
        repair_finished,
        now,
    );
    (SyncView { segment_gc: gc, general, repair, ..s }, l2, deleted)
}

/// A repair candidate lives from its put until its delete or its repair: a
/// poll that reports the running repair of `v` ended successfully leaves `v`
/// no candidate.
pub proof fn lemma_repaired_version_leaves_candidates(
    s: SyncView,
    l: RepairLockView,
    general_finished: bool,
    prepared: bool,
    now: u64,
    v: ObjectVersion,
)
    requires
        s.repair.task == (TaskView::Repair { version: v }),
    ensures
        !sync_poll(s, l, general_finished, prepared, true, true, now).0.general.candidates.contains(
            v.0,
        ),
{
}

/// An input to the synchronizer: an event, a driving step made while the
/// permit pool is in the state `locks`, or a new admission policy.
pub enum SyncInput {
    Event { event: Event, now: u64 },
    Poll {
        general_finished: bool,
        prepared: bool,
        repair_finished: bool,
        repair_succeeded: bool,
        now: u64,
        locks: RepairLockView,
    },
    SetThreshold { threshold: RepairIdleness },
}

/// The state after one input.
pub open spec fn sync_apply(s: SyncView, input: SyncInput) -> SyncView {
    match input {
        SyncInput::Event { event, now } => sync_handle_event(s, event, now),
        SyncInput::Poll {
            general_finished,
            prepared,
            repair_finished,
            repair_succeeded,
            now,
            locks,
        } => sync_poll(s, locks, general_finished, prepared, repair_finished, repair_succeeded, now).0,
        SyncInput::SetThreshold { threshold } => SyncView {
            repair: RepairView { idleness: threshold, ..s.repair },
            ..s
        },
    }
}

/// The state after a sequence of inputs.
pub open spec fn sync_run(s: SyncView, inputs: Seq<SyncInput>) -> SyncView
    decreases inputs.len(),
{
    if inputs.len() == 0 {
        s
    } else {
        sync_apply(sync_run(s, inputs.drop_last()), inputs.last())
    }
}

/// The input is a put of `v`.
pub open spec fn sync_puts(input: SyncInput, v: ObjectVersion) -> bool {
    match input {
        SyncInput::Event { event: Event::Putted { version, .. }, .. } => version == v,
        _ => false,
    }
}

/// `v` is neither a candidate, nor being prepared, nor waiting for or under repair.
pub open spec fn sync_blocks(s: SyncView, v: ObjectVersion) -> bool {
    &&& general_blocks(s.general, v)
    &&& !s.repair.queue.contains(v.0)
    &&& !(s.repair.task matches TaskView::Repair { version } && version == v)
}

proof fn lemma_sync_blocks_preserved(s: SyncView, input: SyncInput, v: ObjectVersion)
    requires
        sync_blocks(s, v),
        !sync_puts(input, v),
    ensures
        sync_blocks(sync_apply(s, input), v),
{
    match input {
        SyncInput::Event { event, now } => {
            if !s.is_metadata && !(event is FullSync) {
                lemma_blocks_preserved(s.general, GeneralInput::Push { event, now }, v);
            }
        },
        SyncInput::Poll {
            general_finished,
            prepared,
            repair_finished,
            repair_succeeded,
            now,
            locks,
        } => {
            let (general, handed) = sync_general_step(s.general, general_finished, prepared, now);
            if s.general.task is Idle || general_finished {
                lemma_blocks_preserved(s.general, GeneralInput::Poll { prepared, now }, v);
            }
            let queued = repair_count_outcome(
                sync_forward(s.repair, handed),
                repair_finished,
                repair_succeeded,
            );
            if let Some(u) = handed {
                lemma_sorted_insert_contains(s.repair.queue, u.0, version_order(), v.0);
            }
            assert(!queued.queue.contains(v.0));
            let next = repair_step(queued, locks, repair_finished, now).0;
            if queued.queue.len() > 0 {
                assert(queued.queue[0] != v.0);
                if next.queue.contains(v.0) && next.queue != queued.queue {
                    let i = choose|i: int| 0 <= i < next.queue.len() && next.queue[i] == v.0;
                    assert(queued.queue[i + 1] == v.0);
                }
            }
        },
        SyncInput::SetThreshold { .. } => {},
    }
}

proof fn lemma_sync_run_blocks(s: SyncView, inputs: Seq<SyncInput>, v: ObjectVersion)
    requires
        sync_blocks(s, v),
        forall|i: int| 0 <= i < inputs.len() ==> !sync_puts(#[trigger] inputs[i], v),
    ensures
        sync_blocks(sync_run(s, inputs), v),
    decreases inputs.len(),
{
    if inputs.len() > 0 {
        let front = inputs.drop_last();
        assert forall|i: int| 0 <= i < front.len() implies !sync_puts(#[trigger] front[i], v) by {
            assert(front[i] == inputs[i]);
        }
        lemma_sync_run_blocks(s, front, v);
        lemma_sync_blocks_preserved(sync_run(s, front), inputs.last(), v);
    }
}

/// A delete that reaches a payload segment's synchronizer before the
/// preparation of its version has started prevents every repair of that
/// version: as long as the version is not put again, no repair of it starts.
pub proof fn lemma_deleted_version_never_repaired(
    s: SyncView,
    v: ObjectVersion,
    now: u64,
    inputs: Seq<SyncInput>,
)
    requires
        !s.is_metadata,
        !(s.general.task matches TaskView::RepairPrep { version } && version == v),
        !s.repair.queue.contains(v.0),
        !(s.repair.task matches TaskView::Repair { version } && version == v),
        forall|i: int| 0 <= i < inputs.len() ==> !sync_puts(#[trigger] inputs[i], v),
    ensures
        forall|k: int|
            0 <= k <= inputs.len() ==> !(#[trigger] sync_run(
                sync_handle_event(s, Event::Deleted { version: v }, now),
                inputs.take(k),
            ).repair.task matches TaskView::Repair { version } && version == v),
{
    let s1 = sync_handle_event(s, Event::Deleted { version: v }, now);
    assert(sync_blocks(s1, v));
    assert forall|k: int| 0 <= k <= inputs.len() implies sync_blocks(
        #[trigger] sync_run(s1, inputs.take(k)),
        v,
    ) by {
        let prefix = inputs.take(k);
        assert forall|i: int| 0 <= i < prefix.len() implies !sync_puts(#[trigger] prefix[i], v) by {
            assert(prefix[i] == inputs[i]);
        }
        lemma_sync_run_blocks(s1, prefix, v);
    }
}

/// The synchronizer of one segment replica.
pub struct Synchronizer {
    node_id: LocalNodeId,
    is_metadata: bool,
    segment_gc: Option<SegmentGc>,
    segment_gc_step: u64,
    general_queue: GeneralQueueExecutor,
    repair_queue: RepairQueueExecutor,
}

impl View for Synchronizer {
    type V = SyncView;

    closed spec fn view(&self) -> SyncView {
        SyncView {
            node: self.node_id.0,
            is_metadata: self.is_metadata,
            segment_gc: match &self.segment_gc {
                Some(g) => Some(g@),
                None => None,
            },
            segment_gc_step: self.segment_gc_step,
            general: self.general_queue@,
            repair: self.repair_queue@,
        }
    }
}

impl Synchronizer {
    /// A synchronizer for node `node_id`, created at wall-clock instant `now`.
    ///
    /// `is_metadata` says that the segment keeps no payload on the device;
    /// `segment_gc_step` bounds how many device entries a sweep examines per poll.
    pub fn new(node_id: LocalNodeId, is_metadata: bool, segment_gc_step: u64, now: u64) -> (r:
        Synchronizer)
        requires
            node_id.wf(),
        ensures
            sync_wf(r@),
            r@.node == node_id.0,
            r@.is_metadata == is_metadata,
            r@.segment_gc is None,
            r@.segment_gc_step == segment_gc_step,
            r@.general == (GeneralView {
                prep: Seq::empty(),
                deletes: Seq::empty(),
                candidates: Set::empty(),
                task: TaskView::Idle,
                counters: zero_counters(),
            }),
            r@.repair == (RepairView {
                queue: Seq::empty(),
                task: TaskView::Idle,
                idleness: RepairIdleness::Disabled,
                last_not_idle: now,
                failures: 0,
            }),
    {
        Synchronizer {
            node_id,
            is_metadata,
            segment_gc: None,
            segment_gc_step,
            general_queue: GeneralQueueExecutor::new(),
            repair_queue: RepairQueueExecutor::new(now),
        }
    }

    /// Takes one committed event, seen at wall-clock instant `now`.
    pub fn handle_event(&mut self, event: &Event, now: u64)
        requires
            sync_wf(old(self)@),
            !old(self)@.is_metadata ==> sync_event_ok(*event, now),
        ensures
            sync_wf(final(self)@),
            final(self)@ == sync_handle_event(old(self)@, *event, now),
    {
        if !self.is_metadata {
            match event {
                Event::Putted { .. } => {
                    self.general_queue.push(event, now);
                },
                Event::Deleted { .. } => {
                    self.general_queue.push(event, now);
                },
                Event::FullSync { machine, next_commit } => {
                    if self.segment_gc.is_none() {
                        self.segment_gc = Some(
                            SegmentGc::new(self.node_id, machine, *next_commit, self.segment_gc_step),
                        );
                    }
                },
            }
        }
    }

    /// Replaces the repair admission policy.
    pub fn set_repair_idleness_threshold(&mut self, repair_idleness_threshold: RepairIdleness)
        requires
            sync_wf(old(self)@),
        ensures
            sync_wf(final(self)@),
            final(self)@ == (SyncView {
                repair: RepairView { idleness: repair_idleness_threshold, ..old(self)@.repair },
                ..old(self)@
            }),
    {
        self.repair_queue.set_repair_idleness_threshold(repair_idleness_threshold);
    }

    /// A sweep is active and waits for its device listing.
    pub fn segment_gc_needs_listing(&self) -> (r: bool)
        ensures
            r == (self@.segment_gc matches Some(g) && g.lumps is None),
    {
        match &self.segment_gc {
            Some(gc) => gc.needs_listing(),
            None => false,
        }
    }

    /// Hands the active sweep its device listing, if it waits for one.
    pub fn set_segment_gc_listing(&mut self, lumps: Vec<LumpId>)
        requires
            sync_wf(old(self)@),
        ensures
            sync_wf(final(self)@),
            final(self)@ == (match old(self)@.segment_gc {
                Some(g) if g.lumps is None => SyncView {
                    segment_gc: Some(GcView { lumps: Some(lumps@), cursor: 0, ..g }),
                    ..old(self)@
                },
                _ => old(self)@,
            }),
    {
        match self.segment_gc.take() {
            Some(mut gc) => {
                if gc.needs_listing() {
                    gc.set_listing(lumps);
                }
                self.segment_gc = Some(gc);
            },
            None => {},
        }
    }

    /// The general queue's current task.
    pub fn general_task(&self) -> (r: &Task)
        ensures
            r@ == self@.general.task,
    {
        self.general_queue.task()
    }

    /// The repair queue's current task.
    pub fn repair_task(&self) -> (r: &Task)
        ensures
            r@ == self@.repair.task,
    {
        self.repair_queue.task()
    }

    /// Items put into and taken out of the general queue's queues so far.
    pub fn general_counters(&self) -> (r: QueueCounters)
        ensures
            r == self@.general.counters,
    {
        self.general_queue.counters()
    }

    /// How many repairs ended in failure so far.
    pub fn repair_failures(&self) -> (r: u64)
        ensures
            r == self@.repair.failures,
    {
        self.repair_queue.failures()
    }

    /// Entries examined and fragments deleted by the active sweep; zero when
    /// none is active, as a finished sweep's counts are reset.
    pub fn segment_gc_counts(&self) -> (r: (u64, u64))
        ensures
            r == (match self@.segment_gc {
                Some(g) => (g.examined, g.deleted),
                None => (0u64, 0u64),
            }),
    {
        match &self.segment_gc {
            Some(gc) => gc.counts(),
            None => (0, 0),
        }
    }

    /// Whether `version` may still be prepared for repair.
    pub fn is_repair_candidate(&self, version: ObjectVersion) -> (r: bool)
        ensures
            r == self@.general.candidates.contains(version.0),
    {
        self.general_queue.is_repair_candidate(version)
    }

    /// One driving step at wall-clock instant `now`.
    ///
    /// The sweep examines its next window and is cleared once done; the
    /// fragments it deletes are returned. When the general queue's task has
    /// ended (`general_finished`; an idle slot always counts as ended) it takes
    /// its next task, and a version whose preparation found it missing
    /// (`prepared`) moves to the repair queue. Then the repair queue is polled,
    /// `repair_finished` saying that its running repair has ended and
    /// `repair_succeeded` that it rebuilt its fragment; a repaired version is
    /// no repair candidate any more.
    pub fn poll(
        &mut self,
        general_finished: bool,
        prepared: bool,
        repair_finished: bool,
        repair_succeeded: bool,
        now: u64,
        locks: &mut RepairLockPool,
    ) -> (r: Vec<LumpId>)
        requires
            sync_wf(old(self)@),
            lock_wf(old(locks)@),
        ensures
            sync_wf(final(self)@),
            lock_wf(final(locks)@),
            (final(self)@, final(locks)@, r@) == sync_poll(
                old(self)@,
                old(locks)@,
                general_finished,
                prepared,
                repair_finished,
                repair_succeeded,
                now,
            ),
    {
        let deleted = match self.segment_gc.take() {
            Some(mut gc) => {
                let d = gc.poll();
                if !gc.is_done() {
                    self.segment_gc = Some(gc);
                }
                d
            },
            None => Vec::new(),
        };
        let general_ready = match self.general_queue.task() {
            Task::Idle => true,
            _ => general_finished,
        };
        if general_ready {
            if let Some(version) = self.general_queue.poll(prepared, now) {
                self.repair_queue.push(version);
            }
        }
        if repair_finished && repair_succeeded {
            let repaired = match self.repair_queue.task() {
                Task::Repair { version } => Some(*version),
                _ => None,
            };
            if let Some(version) = repaired {
                self.general_queue.repair_succeeded(version);
            }
        }
        self.repair_queue.poll(repair_finished, repair_succeeded, now, locks);
        deleted
    }
}

} // verus!
