//! Deferred work items, the task slot of a queue executor, and ordered insertion.
use vstd::prelude::*;

use crate::event::Event;
use crate::version::{MILLIS_PER_SECOND, ObjectVersion};

verus! {

/// Upper bound, in seconds, of one wait for a pending repair preparation.
pub const MAX_TIMEOUT_SECONDS: u64 = 60;

/// Upper bound, in milliseconds, of one wait for a pending repair preparation.
pub const MAX_WAIT_MILLIS: u64 = MAX_TIMEOUT_SECONDS * MILLIS_PER_SECOND;

/// Work that an executor has yet to do.
#[derive(Debug)]
pub enum TodoItem {
    /// Prepare the repair of `version`, not before the wall-clock instant `start_time`.
    RepairContent { start_time: u64, version: ObjectVersion },
    /// Delete the fragments of `versions`.
    DeleteContent { versions: Vec<ObjectVersion> },
}

/// Mathematical value of a `TodoItem`.
pub enum TodoView {
    RepairContent { start_time: u64, version: ObjectVersion },
    DeleteContent { versions: Seq<ObjectVersion> },
}

impl View for TodoItem {
    type V = TodoView;

    open spec fn view(&self) -> TodoView {
        match self {
            TodoItem::RepairContent { start_time, version } => TodoView::RepairContent {
                start_time: *start_time,
                version: *version,
            },
            TodoItem::DeleteContent { versions } => TodoView::DeleteContent { versions: versions@ },
        }
    }
}

/// The item that an event turns into at wall-clock instant `now`.
pub open spec fn todo_of_event(event: Event, now: u64) -> TodoView {
    match event {
        Event::Putted { version, put_content_timeout } => TodoView::RepairContent {
            start_time: (now + put_content_timeout * MILLIS_PER_SECOND) as u64,
            version,
        },
        Event::Deleted { version } => TodoView::DeleteContent { versions: seq![version] },
        Event::FullSync { .. } => TodoView::DeleteContent { versions: Seq::empty() },
    }
}

/// Whether an event of this kind can become a work item, at wall-clock instant `now`.
pub open spec fn event_schedulable(event: Event, now: u64) -> bool {
    match event {
        Event::Putted { put_content_timeout, .. } => now + put_content_timeout
            * MILLIS_PER_SECOND <= u64::MAX,
        Event::Deleted { .. } => true,
        Event::FullSync { .. } => false,
    }
}

/// How long an item must still wait at `now`: only a repair whose start lies ahead waits.
pub open spec fn todo_wait_time(item: TodoView, now: u64) -> Option<u64> {
    match item {
        TodoView::RepairContent { start_time, .. } => if start_time > now {
            Some((start_time - now) as u64)
        } else {
            None
        },
        TodoView::DeleteContent { .. } => None,
    }
}

impl TodoItem {
    /// The work item for a `Putted` or `Deleted` event seen at wall-clock instant `now`.
    ///
    /// A repair starts no earlier than `put_content_timeout` seconds after `now`,
    /// so that it does not race with the payload write of the put itself.
    pub fn new(event: &Event, now: u64) -> (r: TodoItem)
        requires
            event_schedulable(*event, now),
        ensures
            r@ == todo_of_event(*event, now),
    {
        match event {
            Event::Putted { version, put_content_timeout } => {
                let start_time = now + *put_content_timeout * MILLIS_PER_SECOND;
                TodoItem::RepairContent { start_time, version: *version }
            },
            Event::Deleted { version } => {
                let versions = vec![*version];
                assert(versions@ =~= seq![*version]);
                TodoItem::DeleteContent { versions }
            },
            Event::FullSync { .. } => TodoItem::DeleteContent { versions: Vec::new() },
        }
    }

    /// How long this item must still wait at wall-clock instant `now`, if at all.
    pub fn wait_time(&self, now: u64) -> (r: Option<u64>)
        ensures
            r == todo_wait_time(self@, now),
    {
        match self {
            TodoItem::DeleteContent { .. } => None,
            TodoItem::RepairContent { start_time, .. } => {
                if *start_time > now {
                    Some(*start_time - now)
                } else {
                    None
                }
            },
        }
    }
}

/// What an executor is doing now.
#[derive(Debug)]
pub enum Task {
    /// Nothing.
    Idle,
    /// Sleeping until the instant `until`.
    Wait { until: u64 },
    /// Deleting the fragments of `versions`.
    Delete { versions: Vec<ObjectVersion> },
    /// Checking whether `version` needs a repair.
    RepairPrep { version: ObjectVersion },
    /// Rebuilding the local fragment of `version`, holding one repair permit.
    Repair { version: ObjectVersion },
}

/// Mathematical value of a `Task`.
pub enum TaskView {
    Idle,
    Wait { until: u64 },
    Delete { versions: Seq<ObjectVersion> },
    RepairPrep { version: ObjectVersion },
    Repair { version: ObjectVersion },
}

impl View for Task {
    type V = TaskView;

    open spec fn view(&self) -> TaskView {
        match self {
            Task::Idle => TaskView::Idle,
            Task::Wait { until } => TaskView::Wait { until: *until },
            Task::Delete { versions } => TaskView::Delete { versions: versions@ },
            Task::RepairPrep { version } => TaskView::RepairPrep { version: *version },
            Task::Repair { version } => TaskView::Repair { version: *version },
        }
    }
}

impl Task {
    /// Whether the task is idle or only sleeping.
    pub fn is_sleeping(&self) -> (r: bool)
        ensures
            r == (self@ is Idle || self@ is Wait),
    {
        match self {
            Task::Idle => true,
            Task::Wait { .. } => true,
            _ => false,
        }
    }
}

/// Order of pending repair preparations: by start instant, then by version.
#[derive(Clone, Copy, Debug, PartialEq, Eq, Structural)]
pub struct PrepEntry {
    pub start_time: u64,
    pub version: ObjectVersion,
}

/// `a` comes no later than `b` among pending repair preparations.
pub open spec fn prep_le(a: PrepEntry, b: PrepEntry) -> bool {
    a.start_time < b.start_time || (a.start_time == b.start_time && a.version.0 <= b.version.0)
}

/// The order of pending repair preparations, as a value.
pub open spec fn prep_order() -> spec_fn(PrepEntry, PrepEntry) -> bool {
    |a: PrepEntry, b: PrepEntry| prep_le(a, b)
}

/// The order of versions waiting for repair, as a value.
pub open spec fn version_order() -> spec_fn(u64, u64) -> bool {
    |a: u64, b: u64| a <= b
}

/// `s` is ascending in the order `le`.
pub open spec fn sorted_by<T>(s: Seq<T>, le: spec_fn(T, T) -> bool) -> bool {
    forall|i: int, j: int| 0 <= i < j < s.len() ==> le(#[trigger] s[i], #[trigger] s[j])
}

/// `le` is total and transitive.
pub open spec fn total_order<T>(le: spec_fn(T, T) -> bool) -> bool {
    &&& forall|a: T, b: T| #[trigger] le(a, b) || le(b, a)
    &&& forall|a: T, b: T, c: T| #[trigger] le(a, b) && #[trigger] le(b, c) ==> le(a, c)
}

/// `s` with `e` put before the first element that `e` does not exceed.
pub open spec fn sorted_insert<T>(s: Seq<T>, e: T, le: spec_fn(T, T) -> bool) -> Seq<T>
    decreases s.len(),
{
    if s.len() == 0 {
        seq![e]
    } else if le(e, s[0]) {
        seq![e].add(s)
    } else {
        seq![s[0]].add(sorted_insert(s.drop_first(), e, le))
    }
}

/// Ordered insertion holds what the sequence held, and `e`.
pub proof fn lemma_sorted_insert_contains<T>(s: Seq<T>, e: T, le: spec_fn(T, T) -> bool, x: T)
    ensures
        sorted_insert(s, e, le).contains(x) <==> (s.contains(x) || x == e),
    decreases s.len(),
{
    if s.len() == 0 {
        assert(seq![e][0] == e);
    } else if le(e, s[0]) {
        let r = seq![e].add(s);
        if s.contains(x) {
            let i = choose|i: int| 0 <= i < s.len() && s[i] == x;
            assert(r[i + 1] == x);
        }
        if r.contains(x) {
            let i = choose|i: int| 0 <= i < r.len() && r[i] == x;
            if i > 0 {
                assert(s[i - 1] == x);
            }
        }
        assert(r[0] == e);
    } else {
        let t = s.drop_first();
        lemma_sorted_insert_contains(t, e, le, x);
        let u = sorted_insert(t, e, le);
        let r = seq![s[0]].add(u);
        if s.contains(x) {
            let i = choose|i: int| 0 <= i < s.len() && s[i] == x;
            if i == 0 {
                assert(r[0] == x);
            } else {
                assert(t[i - 1] == x);
                let j = choose|j: int| 0 <= j < u.len() && u[j] == x;
                assert(r[j + 1] == x);
            }
        }
        if x == e {
            let j = choose|j: int| 0 <= j < u.len() && u[j] == x;
            assert(r[j + 1] == x);
        }
        if r.contains(x) {
            let i = choose|i: int| 0 <= i < r.len() && r[i] == x;
            if i == 0 {
                assert(s[0] == x);
            } else {
                assert(u[i - 1] == x);
                if t.contains(x) {
                    let j = choose|j: int| 0 <= j < t.len() && t[j] == x;
                    assert(s[j + 1] == x);
                }
            }
        }
    }
}

/// Both orders in use are total orders.
pub proof fn lemma_orders_total()
    ensures
        total_order(prep_order()),
        total_order(version_order()),
{
}

/// `sorted_insert` puts `e` at the first index whose element `e` does not exceed.
pub proof fn lemma_sorted_insert_at<T>(s: Seq<T>, e: T, le: spec_fn(T, T) -> bool, i: int)
    requires
        0 <= i <= s.len(),
        forall|j: int| 0 <= j < i ==> !le(e, #[trigger] s[j]),
        i == s.len() || le(e, s[i]),
    ensures
        sorted_insert(s, e, le) == s.insert(i, e),
    decreases s.len(),
{
    if s.len() == 0 {
        assert(s.insert(i, e) =~= seq![e]);
    } else if le(e, s[0]) {
        assert(i == 0) by {
            if i > 0 {
                assert(!le(e, s[0]));
            }
        }
        assert(s.insert(i, e) =~= seq![e].add(s));
    } else {
        let t = s.drop_first();
        assert forall|j: int| 0 <= j < i - 1 implies !le(e, #[trigger] t[j]) by {
            assert(t[j] == s[j + 1]);
        }
        lemma_sorted_insert_at(t, e, le, i - 1);
        assert(s.insert(i, e) =~= seq![s[0]].add(t.insert(i - 1, e)));
    }
}

/// Ordered insertion keeps a sequence sorted and adds exactly `e`.
pub proof fn lemma_sorted_insert_sorted<T>(s: Seq<T>, e: T, le: spec_fn(T, T) -> bool)
    requires
        total_order(le),
        sorted_by(s, le),
    ensures
        sorted_by(sorted_insert(s, e, le), le),
        sorted_insert(s, e, le).len() == s.len() + 1,
        sorted_insert(s, e, le).to_multiset() == s.to_multiset().insert(e),
    decreases s.len(),
{
    broadcast use vstd::seq_lib::group_to_multiset_ensures;

    if s.len() == 0 {
        assert(seq![e] =~= Seq::<T>::empty().push(e));
    } else if le(e, s[0]) {
        let r = seq![e].add(s);
        assert forall|i: int, j: int| 0 <= i < j < r.len() implies le(
            #[trigger] r[i],
            #[trigger] r[j],
        ) by {
            if i == 0 {
                if j > 1 {
                    assert(le(s[0], s[j - 1]));
                }
            } else {
                assert(r[i] == s[i - 1] && r[j] == s[j - 1]);
            }
        }
        vstd::seq_lib::lemma_multiset_commutative(seq![e], s);
        assert(seq![e] =~= Seq::<T>::empty().push(e));
    } else {
        let t = s.drop_first();
        assert(sorted_by(t, le)) by {
            assert forall|i: int, j: int| 0 <= i < j < t.len() implies le(
                #[trigger] t[i],
                #[trigger] t[j],
            ) by {
                assert(t[i] == s[i + 1] && t[j] == s[j + 1]);
            }
        }
        lemma_sorted_insert_sorted(t, e, le);
        let u = sorted_insert(t, e, le);
        let r = seq![s[0]].add(u);
        assert(le(s[0], e));
        assert forall|k: int| 0 <= k < u.len() implies le(s[0], #[trigger] u[k]) by {
            assert(u.to_multiset().count(u[k]) > 0);
            assert(u.contains(u[k]));
            if u[k] == e {
            } else {
                assert(t.to_multiset().count(u[k]) > 0);
                assert(t.contains(u[k]));
                let m = choose|m: int| 0 <= m < t.len() && t[m] == u[k];
                assert(t[m] == s[m + 1]);
            }
        }
        assert forall|i: int, j: int| 0 <= i < j < r.len() implies le(
            #[trigger] r[i],
            #[trigger] r[j],
        ) by {
            if i == 0 {
                assert(r[j] == u[j - 1]);
            } else {
                assert(r[i] == u[i - 1] && r[j] == u[j - 1]);
            }
        }
        vstd::seq_lib::lemma_multiset_commutative(seq![s[0]], u);
        vstd::seq_lib::lemma_multiset_commutative(seq![s[0]], t);
        assert(seq![s[0]].add(t) =~= s);
    }
}

/// Puts `e` into the sorted vector `v` of pending repair preparations.
pub fn insert_prep_entry(v: &mut Vec<PrepEntry>, e: PrepEntry)
    ensures
        final(v)@ == sorted_insert(old(v)@, e, prep_order()),
{
    let mut i: usize = 0;
    while i < v.len() && !(e.start_time < v[i].start_time || (e.start_time == v[i].start_time
        && e.version.0 <= v[i].version.0))
        invariant
            i <= v.len(),
            v@ == old(v)@,
            forall|j: int| 0 <= j < i ==> !prep_le(e, #[trigger] v@[j]),
        decreases v.len() - i,
    {
        i = i + 1;
    }
    proof {
        lemma_sorted_insert_at(v@, e, prep_order(), i as int);
    }
    v.insert(i, e);
}

/// Puts `e` into the sorted vector `v` of versions waiting for repair.
pub fn insert_version(v: &mut Vec<u64>, e: u64)
    ensures
        final(v)@ == sorted_insert(old(v)@, e, version_order()),
{
    let mut i: usize = 0;
    while i < v.len() && e > v[i]
        invariant
            i <= v.len(),
            v@ == old(v)@,
            forall|j: int| 0 <= j < i ==> e > #[trigger] v@[j],
        decreases v.len() - i,
    {
        i = i + 1;
    }
    proof {
        lemma_sorted_insert_at(v@, e, version_order(), i as int);
    }
    v.insert(i, e);
}

} // verus!
