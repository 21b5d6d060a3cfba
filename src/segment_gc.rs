//! The segment sweep: after a full sync, removes the payload fragments whose
//! versions the state-machine snapshot no longer refers to.
//!
//! A sweep holds a listing of the device, taken once, and examines at most
//! `step` entries of it per poll. A fragment is deleted when it is a payload
//! fragment of this node, its version lies below `next_commit`, and the
//! snapshot has no object at that version.
use vstd::prelude::*;

use std::collections::BTreeSet;

use crate::event::{MachineEntry, snapshot_versions};
use crate::metrics::{add_count, count_up};
use crate::lump::{LocalNodeId, LumpId, is_content_of, lump_version};

verus! {

/// The sweep deletes fragment `id`.
pub open spec fn gc_should_delete(node: u64, live: Set<u64>, next_commit: u64, id: u128) -> bool {
    &&& is_content_of(node, id)
    &&& lump_version(id) < next_commit
    &&& !live.contains(lump_version(id))
}

/// The deletion test as a predicate on identifiers.
pub open spec fn gc_pred(node: u64, live: Set<u64>, next_commit: u64) -> spec_fn(LumpId) -> bool {
    |l: LumpId| gc_should_delete(node, live, next_commit, l.0)
}

/// The keeping test as a predicate on identifiers.
pub open spec fn gc_keep_pred(node: u64, live: Set<u64>, next_commit: u64) -> spec_fn(LumpId) -> bool {
    |l: LumpId| !gc_should_delete(node, live, next_commit, l.0)
}

/// The fragments of `lumps` that a sweep deletes, in listing order.
pub open spec fn gc_deletions(node: u64, live: Set<u64>, next_commit: u64, lumps: Seq<LumpId>) -> Seq<
    LumpId,
> {
    lumps.filter(gc_pred(node, live, next_commit))
}

/// The fragments of `lumps` that a sweep keeps, in listing order.
pub open spec fn gc_survivors(node: u64, live: Set<u64>, next_commit: u64, lumps: Seq<LumpId>) -> Seq<
    LumpId,
> {
    lumps.filter(gc_keep_pred(node, live, next_commit))
}

/// The versions of a sequence of fragments.
pub open spec fn lump_versions(lumps: Seq<LumpId>) -> Set<u64> {
    Set::new(|v: u64| exists|i: int| 0 <= i < lumps.len() && lump_version(#[trigger] lumps[i].0) == v)
}

/// Where a poll that starts at `cursor` of a listing of `len` entries stops.
pub open spec fn gc_window_end(cursor: int, len: int, step: u64) -> int {
    if len - cursor > step {
        cursor + step
    } else {
        len
    }
}

/// Mathematical state of a sweep.
pub struct GcView {
    pub node: u64,
    /// Versions that the snapshot refers to.
    pub live: Set<u64>,
    pub next_commit: u64,
    pub step: u64,
    /// The device listing, once taken.
    pub lumps: Option<Seq<LumpId>>,
    /// How many listing entries have been examined.
    pub cursor: int,
    /// Entries examined by this sweep, as a metric.
    pub examined: u64,
    /// Fragments this sweep deleted, as a metric.
    pub deleted: u64,
}

/// The node id fits and the cursor stays within the listing.
pub open spec fn gc_wf(g: GcView) -> bool {
    &&& g.node < crate::lump::LOCAL_NODE_ID_LIMIT
    &&& 0 <= g.cursor
    &&& match g.lumps {
        Some(ls) => g.cursor <= ls.len(),
        None => g.cursor == 0,
    }
}

/// A sweep of one node's payload fragments against one state-machine snapshot.
pub struct SegmentGc {
    node: LocalNodeId,
    live: BTreeSet<u64>,
    next_commit: u64,
    step: u64,
    lumps: Option<Vec<LumpId>>,
    cursor: usize,
    examined: u64,
    deleted: u64,
}

impl View for SegmentGc {
    type V = GcView;

    closed spec fn view(&self) -> GcView {
        GcView {
            node: self.node.0,
            live: self.live@,
            next_commit: self.next_commit,
            step: self.step,
            lumps: match &self.lumps {
                Some(v) => Some(v@),
                None => None,
            },
            cursor: self.cursor as int,
            examined: self.examined,
            deleted: self.deleted,
        }
    }
}

impl SegmentGc {
    /// A sweep for node `node` against `machine`, valid below `next_commit`,
    /// examining at most `step` entries per poll. It has no listing yet.
    pub fn new(node: LocalNodeId, machine: &Vec<MachineEntry>, next_commit: u64, step: u64) -> (r:
        SegmentGc)
        requires
            node.wf(),
        ensures
            gc_wf(r@),
            r@ == (GcView {
                node: node.0,
                live: snapshot_versions(machine@),
                next_commit,
                step,
                lumps: None,
                cursor: 0,
                examined: 0,
                deleted: 0,
            }),
    {
        broadcast use vstd::std_specs::btree::group_btree_axioms;
        broadcast use vstd::laws_cmp::group_laws_cmp;

        let mut live: BTreeSet<u64> = BTreeSet::new();
        let mut i: usize = 0;
        while i < machine.len()
            invariant
                i <= machine.len(),
                live@ == snapshot_versions(machine@.take(i as int)),
            decreases machine.len() - i,
        {
            let v = machine[i].version.0;
            live.insert(v);
            proof {
                let before = machine@.take(i as int);
                let after = machine@.take(i as int + 1);
                assert forall|x: u64| #[trigger]
                    snapshot_versions(after).contains(x) == snapshot_versions(before).insert(
                        v,
                    ).contains(x) by {
                    if snapshot_versions(before).contains(x) {
                        let j = choose|j: int| 0 <= j < before.len() && before[j].version.0 == x;
                        assert(after[j] == before[j]);
                    }
                    if x == v {
                        assert(after[i as int].version.0 == x);
                    }
                    if snapshot_versions(after).contains(x) {
                        let j = choose|j: int| 0 <= j < after.len() && after[j].version.0 == x;
                        if j < i {
                            assert(before[j] == after[j]);
                        }
                    }
                }
                assert(snapshot_versions(after) =~= snapshot_versions(before).insert(v));
            }
            i = i + 1;
        }
        assert(machine@.take(machine.len() as int) =~= machine@);
        SegmentGc { node, live, next_commit, step, lumps: None, cursor: 0, examined: 0, deleted: 0 }
    }

    /// Entries examined and fragments deleted by this sweep so far.
    pub fn counts(&self) -> (r: (u64, u64))
        ensures
            r == (self@.examined, self@.deleted),
    {
        (self.examined, self.deleted)
    }

    /// The sweep waits for its device listing.
    pub fn needs_listing(&self) -> (r: bool)
        ensures
            r == self@.lumps is None,
    {
        self.lumps.is_none()
    }

    /// Hands the sweep the device listing; examination starts from its beginning.
    pub fn set_listing(&mut self, lumps: Vec<LumpId>)
        requires
            gc_wf(old(self)@),
        ensures
            gc_wf(final(self)@),
            final(self)@ == (GcView { lumps: Some(lumps@), cursor: 0, ..old(self)@ }),
    {
        self.lumps = Some(lumps);
        self.cursor = 0;
    }

    /// The sweep has examined its whole listing.
    pub fn is_done(&self) -> (r: bool)
        requires
            gc_wf(self@),
        ensures
            r == (self@.lumps matches Some(ls) && self@.cursor == ls.len()),
    {
        match &self.lumps {
            Some(lumps) => self.cursor == lumps.len(),
            None => false,
        }
    }

    /// Whether the sweep deletes fragment `lump`.
    pub fn should_delete(&self, lump: LumpId) -> (r: bool)
        requires
            gc_wf(self@),
        ensures
            r == gc_should_delete(self@.node, self@.live, self@.next_commit, lump.0),
    {
        broadcast use vstd::std_specs::btree::group_btree_axioms;
        broadcast use vstd::laws_cmp::group_laws_cmp;

        let version = lump.version().0;
        lump.is_content_of(self.node) && version < self.next_commit && !self.live.contains(
            &version,
        )
    }

    /// Examines the next at most `step` listing entries and returns those to
    /// delete, in listing order. Without a listing it returns nothing.
    pub fn poll(&mut self) -> (r: Vec<LumpId>)
        requires
            gc_wf(old(self)@),
        ensures
            gc_wf(final(self)@),
            match old(self)@.lumps {
                None => r@ == Seq::<LumpId>::empty() && final(self)@ == old(self)@,
                Some(ls) => {
                    let end = gc_window_end(old(self)@.cursor, ls.len() as int, old(self)@.step);
                    &&& final(self)@ == (GcView {
                        cursor: end,
                        examined: count_up(old(self)@.examined, (end - old(self)@.cursor) as u64),
                        deleted: count_up(old(self)@.deleted, r@.len() as u64),
                        ..old(self)@
                    })
                    &&& r@ == gc_deletions(
                        old(self)@.node,
                        old(self)@.live,
                        old(self)@.next_commit,
                        ls.subrange(old(self)@.cursor, end),
                    )
                },
            },
    {
        let mut out: Vec<LumpId> = Vec::new();
        let ghost pred = gc_pred(self@.node, self@.live, self@.next_commit);
        match &self.lumps {
            None => {
                return out;
            },
            Some(lumps) => {
                let start = self.cursor;
                let remaining = lumps.len() - start;
                let end = if remaining as u64 > self.step {
                    start + self.step as usize
                } else {
                    lumps.len()
                };
                let mut i = start;
                while i < end
                    invariant
                        gc_wf(self@),
                        self@.lumps == Some(lumps@),
                        start == self.cursor,
                        start <= i <= end <= lumps.len(),
                        pred == gc_pred(self@.node, self@.live, self@.next_commit),
                        out@ == lumps@.subrange(start as int, i as int).filter(pred),
                    decreases end - i,
                {
                    let lump = lumps[i];
                    let delete = self.should_delete(lump);
                    proof {
                        reveal(Seq::filter);
                        assert(lumps@.subrange(start as int, i + 1).drop_last() =~= lumps@.subrange(
                            start as int,
                            i as int,
                        ));
                    }
                    if delete {
                        out.push(lump);
                    }
                    i = i + 1;
                }
                self.cursor = end;
                self.examined = add_count(self.examined, (end - start) as u64);
                self.deleted = add_count(self.deleted, out.len() as u64);
            },
        }
        out
    }
}

/// A sweep deletes only payload fragments of its own node whose version lies
/// below `next_commit` and is absent from the snapshot.
pub proof fn lemma_sweep_spares_live(
    node: u64,
    live: Set<u64>,
    next_commit: u64,
    lumps: Seq<LumpId>,
)
    ensures
        forall|i: int|
            0 <= i < gc_deletions(node, live, next_commit, lumps).len() ==> {
                let id = #[trigger] gc_deletions(node, live, next_commit, lumps)[i].0;
                &&& is_content_of(node, id)
                &&& lump_version(id) < next_commit
                &&& !live.contains(lump_version(id))
            },
{
    broadcast use vstd::seq_lib::group_filter_ensures;

}

/// The polls of a sweep, window after window, delete what one examination of
/// the joined windows deletes.
pub proof fn lemma_sweep_windows(
    node: u64,
    live: Set<u64>,
    next_commit: u64,
    lumps: Seq<LumpId>,
    a: int,
    b: int,
    c: int,
)
    requires
        0 <= a <= b <= c <= lumps.len(),
    ensures
        gc_deletions(node, live, next_commit, lumps.subrange(a, b)) + gc_deletions(
            node,
            live,
            next_commit,
            lumps.subrange(b, c),
        ) == gc_deletions(node, live, next_commit, lumps.subrange(a, c)),
{
    let p = gc_pred(node, live, next_commit);
    assert(lumps.subrange(a, b) + lumps.subrange(b, c) =~= lumps.subrange(a, c));
    Seq::filter_distributes_over_add(lumps.subrange(a, b), lumps.subrange(b, c), p);
}

/// A second sweep over what a first one left, against the same snapshot,
/// deletes nothing.
pub proof fn lemma_second_sweep_deletes_nothing(
    node: u64,
    live: Set<u64>,
    next_commit: u64,
    lumps: Seq<LumpId>,
)
    ensures
        gc_deletions(node, live, next_commit, gc_survivors(node, live, next_commit, lumps))
            == Seq::<LumpId>::empty(),
{
    broadcast use vstd::seq_lib::group_filter_ensures;

    let kept = gc_survivors(node, live, next_commit, lumps);
    let again = gc_deletions(node, live, next_commit, kept);
    if again.len() > 0 {
        let x = again[0];
        assert(again.contains(x));
        kept.lemma_filter_contains_rev(gc_pred(node, live, next_commit), x);
        assert(kept.contains(x));
        let j = choose|j: int| 0 <= j < kept.len() && kept[j] == x;
        assert(!gc_should_delete(node, live, next_commit, kept[j].0));
    }
    assert(again =~= Seq::<LumpId>::empty());
}

/// Whatever the device held, a sweep leaves no payload fragment of its node
/// below `next_commit` whose version the snapshot does not refer to.
pub proof fn lemma_sweep_leaves_no_dead_version(
    node: u64,
    live: Set<u64>,
    next_commit: u64,
    lumps: Seq<LumpId>,
)
    ensures
        forall|i: int|
            0 <= i < gc_survivors(node, live, next_commit, lumps).len() ==> {
                let id = #[trigger] gc_survivors(node, live, next_commit, lumps)[i].0;
                is_content_of(node, id) && lump_version(id) < next_commit ==> live.contains(
                    lump_version(id),
                )
            },
{
    broadcast use vstd::seq_lib::group_filter_ensures;

    let kept = gc_survivors(node, live, next_commit, lumps);
    assert forall|i: int| 0 <= i < kept.len() implies (gc_keep_pred(node, live, next_commit))(
        #[trigger] kept[i],
    ) by {}
}

/// When every listed fragment is a payload fragment of the node below
/// `next_commit`, every version of the snapshot lies below `next_commit`, and
/// each of them has a fragment on the device, the sweep leaves exactly one
/// version set: that of the snapshot.
pub proof fn lemma_sweep_leaves_exactly_live(
    node: u64,
    live: Set<u64>,
    next_commit: u64,
    lumps: Seq<LumpId>,
)
    requires
        forall|i: int|
            0 <= i < lumps.len() ==> is_content_of(node, #[trigger] lumps[i].0) && lump_version(
                lumps[i].0,
            ) < next_commit,
        forall|v: u64| #[trigger] live.contains(v) ==> v < next_commit,
        forall|v: u64| #[trigger] live.contains(v) ==> lump_versions(lumps).contains(v),
    ensures
        lump_versions(gc_survivors(node, live, next_commit, lumps)) == live,
{
    broadcast use vstd::seq_lib::group_filter_ensures;

    let keep = gc_keep_pred(node, live, next_commit);
    let kept = gc_survivors(node, live, next_commit, lumps);
    assert forall|v: u64| #[trigger] lump_versions(kept).contains(v) == live.contains(v) by {
        if lump_versions(kept).contains(v) {
            let i = choose|i: int| 0 <= i < kept.len() && lump_version(kept[i].0) == v;
            assert(keep(kept[i]));
            assert(kept.contains(kept[i]));
            lumps.lemma_filter_contains_rev(keep, kept[i]);
            assert(lumps.contains(kept[i]));
            let j = choose|j: int| 0 <= j < lumps.len() && lumps[j] == kept[i];
            assert(is_content_of(node, lumps[j].0));
        }
        if live.contains(v) {
            assert(lump_versions(lumps).contains(v));
            let j = choose|j: int| 0 <= j < lumps.len() && lump_version(lumps[j].0) == v;
            assert(keep(lumps[j]));
            assert(kept.contains(lumps[j]));
            let i = choose|i: int| 0 <= i < kept.len() && kept[i] == lumps[j];
            assert(lump_version(kept[i].0) == v);
        }
    }
    assert(lump_versions(kept) =~= live);
}

} // verus!
