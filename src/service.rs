//! The registry of local nodes and the two-phase shutdown of the service.
//!
//! Stopping first asks every node to take a snapshot and waits until each has
//! signalled completion; only then are all nodes told to exit. Stopping nodes
//! one by one would let clients reach nodes that are already gone, an error
//! that retrying does not cure.
use vstd::prelude::*;

use std::collections::BTreeSet;

use crate::lump::LocalNodeId;

verus! {

/// A change to the node registry.
#[derive(Clone, Copy, Debug, PartialEq, Eq, Structural)]
pub enum Command {
    AddNode(LocalNodeId),
    RemoveNode(LocalNodeId),
}

/// Mathematical state of the service.
pub struct ServiceView {
    /// Registered nodes, each once.
    pub nodes: Seq<LocalNodeId>,
    /// A stop or a snapshot was requested: no node is added any more.
    pub do_stop: bool,
    /// While a stop is in progress: the nodes whose snapshot has not completed.
    pub pending: Option<Set<u64>>,
}

/// The ids of a sequence of nodes.
pub open spec fn node_ids(nodes: Seq<LocalNodeId>) -> Set<u64> {
    Set::new(|x: u64| exists|i: int| 0 <= i < nodes.len() && #[trigger] nodes[i].0 == x)
}

/// Each node is registered once.
pub open spec fn service_wf(s: ServiceView) -> bool {
    s.nodes.no_duplicates()
}

/// A stop: snapshots are requested from every registered node, which are returned.
pub open spec fn service_stop(s: ServiceView) -> (ServiceView, Seq<LocalNodeId>) {
    (
        ServiceView {
            do_stop: true,
            pending: if s.nodes.len() == 0 {
                None
            } else {
                Some(node_ids(s.nodes))
            },
            ..s
        },
        s.nodes,
    )
}

/// A snapshot request to every registered node, which are returned.
pub open spec fn service_take_snapshot(s: ServiceView) -> (ServiceView, Seq<LocalNodeId>) {
    (ServiceView { do_stop: true, ..s }, s.nodes)
}

/// Node `id` signalled that its stop snapshot ended. When it was the last one
/// awaited, every registered node is returned, to be told to exit.
pub open spec fn service_complete(s: ServiceView, id: u64) -> (ServiceView, Option<Seq<LocalNodeId>>) {
    match s.pending {
        None => (s, None),
        Some(p) => if p.remove(id).is_empty() {
            (ServiceView { pending: None, ..s }, Some(s.nodes))
        } else {
            (ServiceView { pending: Some(p.remove(id)), ..s }, None)
        },
    }
}

/// The state after a registry command, and whether it changed the entry of its node.
///
/// Once a stop was requested, additions are ignored.
pub open spec fn service_command(s: ServiceView, command: Command) -> (ServiceView, bool) {
    match command {
        Command::AddNode(id) => if s.do_stop {
            (s, false)
        } else if s.nodes.contains(id) {
            (s, true)
        } else {
            (ServiceView { nodes: s.nodes.push(id), ..s }, true)
        },
        Command::RemoveNode(id) => if s.nodes.contains(id) {
            (ServiceView { nodes: s.nodes.remove(s.nodes.index_of(id)), ..s }, true)
        } else {
            (s, false)
        },
    }
}

/// The service has finished: a stop was requested and every node is gone.
pub open spec fn service_finished(s: ServiceView) -> bool {
    s.do_stop && s.nodes.len() == 0
}

/// An input to the service while it runs: a registry command, or the end of
/// one node's stop snapshot.
pub enum ServiceInput {
    Command(Command),
    Completed(u64),
}

/// The state after one input, and the nodes to tell to exit, if it is time.
pub open spec fn service_apply(s: ServiceView, input: ServiceInput) -> (
    ServiceView,
    Option<Seq<LocalNodeId>>,
) {
    match input {
        ServiceInput::Command(c) => (service_command(s, c).0, None),
        ServiceInput::Completed(id) => service_complete(s, id),
    }
}

/// The state after a sequence of inputs.
pub open spec fn service_run(s: ServiceView, inputs: Seq<ServiceInput>) -> ServiceView
    decreases inputs.len(),
{
    if inputs.len() == 0 {
        s
    } else {
        service_apply(service_run(s, inputs.drop_last()), inputs.last()).0
    }
}

/// The nodes whose completion the inputs report.
pub open spec fn completed_ids(inputs: Seq<ServiceInput>) -> Set<u64> {
    Set::new(
        |x: u64| exists|j: int| 0 <= j < inputs.len() && #[trigger] inputs[j] == ServiceInput::Completed(x),
    )
}

proof fn lemma_pending_tracks(s: ServiceView, inputs: Seq<ServiceInput>, m: int)
    requires
        0 <= m <= inputs.len(),
    ensures
        service_run(service_stop(s).0, inputs.take(m)).pending matches Some(p) ==> p == node_ids(
            s.nodes,
        ).difference(completed_ids(inputs.take(m))),
    decreases m,
{
    let s1 = service_stop(s).0;
    if m == 0 {
        assert(inputs.take(0) =~= Seq::<ServiceInput>::empty());
        assert(completed_ids(inputs.take(0)) =~= Set::<u64>::empty());
        assert(node_ids(s.nodes).difference(Set::<u64>::empty()) =~= node_ids(s.nodes));
    } else {
        lemma_pending_tracks(s, inputs, m - 1);
        let before = inputs.take(m - 1);
        let after = inputs.take(m);
        assert(after.drop_last() =~= before);
        let t = service_run(s1, before);
        let input = inputs[m - 1];
        assert(after.last() == input);
        match input {
            ServiceInput::Command(c) => {
                assert forall|x: u64| #[trigger]
                    completed_ids(after).contains(x) == completed_ids(before).contains(x) by {
                    if completed_ids(after).contains(x) {
                        let j = choose|j: int|
                            0 <= j < after.len() && after[j] == ServiceInput::Completed(x);
                        assert(j < m - 1);
                        assert(before[j] == after[j]);
                    }
                    if completed_ids(before).contains(x) {
                        let j = choose|j: int|
                            0 <= j < before.len() && before[j] == ServiceInput::Completed(x);
                        assert(after[j] == before[j]);
                    }
                }
                assert(completed_ids(after) =~= completed_ids(before));
            },
            ServiceInput::Completed(c) => {
                assert forall|x: u64| #[trigger]
                    completed_ids(after).contains(x) == completed_ids(before).insert(c).contains(
                        x,
                    ) by {
                    if completed_ids(after).contains(x) {
                        let j = choose|j: int|
                            0 <= j < after.len() && after[j] == ServiceInput::Completed(x);
                        if j < m - 1 {
                            assert(before[j] == after[j]);
                        }
                    }
                    if completed_ids(before).contains(x) {
                        let j = choose|j: int|
                            0 <= j < before.len() && before[j] == ServiceInput::Completed(x);
                        assert(after[j] == before[j]);
                    }
                    if x == c {
                        assert(after[m - 1] == ServiceInput::Completed(x));
                    }
                }
                assert(completed_ids(after) =~= completed_ids(before).insert(c));
                if let Some(p) = t.pending {
                    assert(p.remove(c) =~= node_ids(s.nodes).difference(
                        completed_ids(before).insert(c),
                    ));
                }
            },
        }
    }
}

/// Nodes exit only after every node asked to stop has completed its snapshot:
/// when, after a stop, the inputs up to `k` make the service tell the nodes to
/// exit, each node registered at the stop has reported its completion among them.
pub proof fn lemma_exit_after_all_snapshots(s: ServiceView, inputs: Seq<ServiceInput>, k: int)
    requires
        0 <= k < inputs.len(),
        service_apply(service_run(service_stop(s).0, inputs.take(k)), inputs[k]).1 is Some,
    ensures
        forall|x: u64| #[trigger]
            node_ids(s.nodes).contains(x) ==> completed_ids(inputs.take(k + 1)).contains(x),
{
    lemma_pending_tracks(s, inputs, k);
    let t = service_run(service_stop(s).0, inputs.take(k));
    let before = inputs.take(k);
    let after = inputs.take(k + 1);
    if let ServiceInput::Completed(c) = inputs[k] {
        let p = t.pending->Some_0;
        assert forall|x: u64| #[trigger] node_ids(s.nodes).contains(x) implies completed_ids(
            after,
        ).contains(x) by {
            assert(!p.remove(c).contains(x));
            if x == c {
                assert(after[k] == ServiceInput::Completed(x));
            } else {
                assert(completed_ids(before).contains(x));
                let j = choose|j: int|
                    0 <= j < before.len() && before[j] == ServiceInput::Completed(x);
                assert(after[j] == before[j]);
            }
        }
    }
}

/// The local nodes of one process and their shutdown.
pub struct Service {
    nodes: Vec<LocalNodeId>,
    do_stop: bool,
    pending: Option<BTreeSet<u64>>,
}

impl View for Service {
    type V = ServiceView;

    closed spec fn view(&self) -> ServiceView {
        ServiceView {
            nodes: self.nodes@,
            do_stop: self.do_stop,
            pending: match &self.pending {
                Some(p) => Some(p@),
                None => None,
            },
        }
    }
}

/// A copy of a list of nodes.
fn copy_nodes(nodes: &Vec<LocalNodeId>) -> (r: Vec<LocalNodeId>)
    ensures
        r@ == nodes@,
{
    let mut r: Vec<LocalNodeId> = Vec::new();
    let mut i: usize = 0;
    while i < nodes.len()
        invariant
            i <= nodes.len(),
            r@ == nodes@.take(i as int),
        decreases nodes.len() - i,
    {
        r.push(nodes[i]);
        assert(nodes@.take(i as int + 1) =~= nodes@.take(i as int).push(nodes@[i as int]));
        i = i + 1;
    }
    assert(nodes@.take(nodes.len() as int) =~= nodes@);
    r
}

/// The position of `id` among `nodes`, if registered.
fn find_node(nodes: &Vec<LocalNodeId>, id: LocalNodeId) -> (r: Option<usize>)
    ensures
        match r {
            Some(i) => i < nodes@.len() && nodes@[i as int] == id,
            None => !nodes@.contains(id),
        },
{
    let mut i: usize = 0;
    while i < nodes.len()
        invariant
            i <= nodes.len(),
            forall|j: int| 0 <= j < i ==> nodes@[j] != id,
        decreases nodes.len() - i,
    {
        if nodes[i] == id {
            return Some(i);
        }
        i = i + 1;
    }
    None
}

impl Service {
    /// A service with no node, not stopping.
    pub fn new() -> (r: Service)
        ensures
            service_wf(r@),
            r@ == (ServiceView { nodes: Seq::empty(), do_stop: false, pending: None }),
    {
        Service { nodes: Vec::new(), do_stop: false, pending: None }
    }

    /// The registered nodes.
    pub fn nodes(&self) -> (r: &Vec<LocalNodeId>)
        ensures
            r@ == self@.nodes,
    {
        &self.nodes
    }

    /// A stop or a snapshot was requested.
    pub fn is_stopping(&self) -> (r: bool)
        ensures
            r == self@.do_stop,
    {
        self.do_stop
    }

    /// A stop was requested and every node is gone.
    pub fn is_finished(&self) -> (r: bool)
        ensures
            r == service_finished(self@),
    {
        self.do_stop && self.nodes.len() == 0
    }

    /// Starts stopping: returns the nodes to ask for a stop snapshot, whose
    /// completion `stop_completed` then awaits.
    pub fn stop(&mut self) -> (r: Vec<LocalNodeId>)
        requires
            service_wf(old(self)@),
        ensures
            service_wf(final(self)@),
            (final(self)@, r@) == service_stop(old(self)@),
    {
        broadcast use vstd::std_specs::btree::group_btree_axioms;
        broadcast use vstd::laws_cmp::group_laws_cmp;

        self.do_stop = true;
        let mut pending: BTreeSet<u64> = BTreeSet::new();
        let mut i: usize = 0;
        while i < self.nodes.len()
            invariant
                i <= self.nodes.len(),
                pending@ == node_ids(self.nodes@.take(i as int)),
            decreases self.nodes.len() - i,
        {
            let id = self.nodes[i].0;
            pending.insert(id);
            proof {
                let before = self.nodes@.take(i as int);
                let after = self.nodes@.take(i as int + 1);
                assert forall|x: u64| #[trigger]
                    node_ids(after).contains(x) == node_ids(before).insert(id).contains(x) by {
                    if node_ids(before).contains(x) {
                        let j = choose|j: int| 0 <= j < before.len() && before[j].0 == x;
                        assert(after[j] == before[j]);
                    }
                    if x == id {
                        assert(after[i as int].0 == x);
                    }
                    if node_ids(after).contains(x) {
                        let j = choose|j: int| 0 <= j < after.len() && after[j].0 == x;
                        if j < i {
                            assert(before[j] == after[j]);
                        }
                    }
                }
                assert(node_ids(after) =~= node_ids(before).insert(id));
            }
            i = i + 1;
        }
        assert(self.nodes@.take(self.nodes.len() as int) =~= self.nodes@);
        if self.nodes.len() == 0 {
            self.pending = None;
        } else {
            self.pending = Some(pending);
        }
        copy_nodes(&self.nodes)
    }

    /// Requests a snapshot from every node without stopping them; returns the nodes to ask.
    pub fn take_snapshot(&mut self) -> (r: Vec<LocalNodeId>)
        requires
            service_wf(old(self)@),
        ensures
            service_wf(final(self)@),
            (final(self)@, r@) == service_take_snapshot(old(self)@),
    {
        self.do_stop = true;
        copy_nodes(&self.nodes)
    }

    /// Node `id` signalled that its stop snapshot ended, or that it can no
    /// longer signal. Returns every registered node once none is awaited any
    /// more: they are to be told to exit.
    pub fn stop_completed(&mut self, id: LocalNodeId) -> (r: Option<Vec<LocalNodeId>>)
        requires
            service_wf(old(self)@),
        ensures
            service_wf(final(self)@),
            (final(self)@, match r {
                Some(v) => Some(v@),
                None => None,
            }) == service_complete(old(self)@, id.0),
    {
        broadcast use vstd::std_specs::btree::group_btree_axioms;
        broadcast use vstd::laws_cmp::group_laws_cmp;

        match self.pending.take() {
            None => None,
            Some(mut p) => {
                p.remove(&id.0);
                if p.is_empty() {
                    Some(copy_nodes(&self.nodes))
                } else {
                    self.pending = Some(p);
                    None
                }
            },
        }
    }

    /// Applies a registry command; says whether it changed the entry of its
    /// node (an addition that is accepted, or a removal of a registered node).
    pub fn handle_command(&mut self, command: Command) -> (r: bool)
        requires
            service_wf(old(self)@),
        ensures
            service_wf(final(self)@),
            (final(self)@, r) == service_command(old(self)@, command),
    {
        match command {
            Command::AddNode(id) => {
                if self.do_stop {
                    return false;
                }
                match find_node(&self.nodes, id) {
                    Some(_) => true,
                    None => {
                        self.nodes.push(id);
                        true
                    },
                }
            },
            Command::RemoveNode(id) => {
                match find_node(&self.nodes, id) {
                    Some(i) => {
                        proof {
                            let j = self.nodes@.index_of(id);
                            assert(self.nodes@.contains(id));
                            assert(self.nodes@[j] == id);
                            assert(j == i as int);
                        }
                        self.nodes.remove(i);
                        true
                    },
                    None => false,
                }
            },
        }
    }
}

} // verus!
