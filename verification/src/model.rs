//! The cluster as a mathematical value, and what each step does to it.

use vstd::prelude::*;
use crate::node::{Node, Phase};
use crate::topology::{lemma_dependencies_come_first, NodeId, NODE_COUNT};

verus! {

/// The one piece of outside work that a step asks for.
#[derive(Clone, Copy, Debug, PartialEq, Eq, Structural)]
pub enum Action {
    /// Do this node's own work and hand the outcome to `resolve`. The work
    /// has not been handed out before, and all the node's dependencies are
    /// ready.
    Launch(NodeId),
    /// Work that was handed out earlier has to come back first.
    Wait,
    /// Ask both gateways for their identities and hand them to
    /// `publish_gateway_ids`.
    ReportGatewayIds,
    /// Wait until the federation lists its gateways, then call
    /// `confirm_gateways`.
    ConfirmGateways,
}

/// How far a request has come.
#[derive(Clone, Copy, Debug, PartialEq, Eq, Structural)]
pub enum Progress {
    /// All that was asked for is ready.
    Ready,
    /// This node, which was asked for, has failed.
    Failed(NodeId),
    /// Outside work stands in the way.
    Pending(Action),
}

/// One item of a plan: a walk through the cluster in a fixed order.
#[derive(Clone, Copy, Debug, PartialEq, Eq, Structural)]
pub enum Task {
    /// Ask for this node, and go on once it is ready.
    Force(NodeId),
    /// Go on once the identities of the two gateways are on record.
    ReportGatewayIds,
    /// Go on once the federation is known to list its gateways.
    ConfirmGateways,
}

/// The walk of finalization: both gateways and the record of their
/// identities; the client that has joined; both gateways as registered,
/// and the confirmation that the federation lists them; the open channel;
/// both gateways as registered, each with its gateway; both payment nodes;
/// both chain indexers; the first consensus round. Nodes are lazy: within
/// this walk nothing but a request makes a gateway join, so the markers
/// stand before the confirmation.
pub open spec fn finalize_plan() -> Seq<Task> {
    seq![
        Task::Force(NodeId::GwCln),
        Task::Force(NodeId::GwLnd),
        Task::ReportGatewayIds,
        Task::Force(NodeId::FedClientJoined),
        Task::Force(NodeId::Fed),
        Task::Force(NodeId::GwClnRegistered),
        Task::Force(NodeId::GwLndRegistered),
        Task::ConfirmGateways,
        Task::Force(NodeId::Fed),
        Task::Force(NodeId::ChannelOpened),
        Task::Force(NodeId::GwClnRegistered),
        Task::Force(NodeId::GwCln),
        Task::Force(NodeId::GwLndRegistered),
        Task::Force(NodeId::GwLnd),
        Task::Force(NodeId::Cln),
        Task::Force(NodeId::Lnd),
        Task::Force(NodeId::Electrs),
        Task::Force(NodeId::Esplora),
        Task::Force(NodeId::FedEpochGenerated),
    ]
}

/// The walk to a gateway that has joined the federation: the marker, then
/// the gateway.
pub open spec fn registered_plan(marker: NodeId, gateway: NodeId) -> Seq<Task> {
    seq![Task::Force(marker), Task::Force(gateway)]
}

/// The walk to the client that has joined the federation.
pub open spec fn client_registered_plan() -> Seq<Task> {
    seq![Task::Force(NodeId::FedClientJoined), Task::Force(NodeId::Fed)]
}

/// The walk to the client that has joined the federation and sees its
/// gateways: the client's marker, the federation, the confirmation that the
/// federation lists its gateways, and the federation once more. The walk
/// asks for no gateway.
pub open spec fn client_gw_registered_plan() -> Seq<Task> {
    seq![
        Task::Force(NodeId::FedClientJoined),
        Task::Force(NodeId::Fed),
        Task::ConfirmGateways,
        Task::Force(NodeId::Fed),
    ]
}

/// Nanoseconds in a millisecond.
pub const NANOS_PER_MILLI: u128 = 1_000_000;

/// The whole milliseconds from `started_at` to `now`, both in nanoseconds;
/// nothing if the clock has gone back.
pub open spec fn elapsed_millis(started_at: nat, now: nat) -> Option<nat> {
    if now >= started_at {
        Some(((now - started_at) / NANOS_PER_MILLI as int) as nat)
    } else {
        None
    }
}

/// The cluster: the state of every node, and what finalization has
/// recorded so far.
pub struct Cluster<V, E> {
    /// The state of each node.
    pub nodes: Map<NodeId, Node<V, E>>,
    /// The identities of the two gateways, once they have been reported:
    /// that of `GwCln`, then that of `GwLnd`.
    pub gateway_ids: Option<(Seq<char>, Seq<char>)>,
    /// The federation has listed its gateways.
    pub gateways_confirmed: bool,
    /// When the cluster was wired, in nanoseconds.
    pub started_at: nat,
}

impl<V, E> Cluster<V, E> {
    /// The cluster right after wiring: no node has been asked for.
    pub open spec fn fresh(started_at: nat) -> Self {
        Cluster {
            nodes: Map::total(|id: NodeId| Node::<V, E>::Unstarted),
            gateway_ids: None,
            gateways_confirmed: false,
            started_at,
        }
    }

    /// The cluster with node `id` in state `node`.
    pub open spec fn with_node(self, id: NodeId, node: Node<V, E>) -> Self {
        Cluster { nodes: self.nodes.insert(id, node), ..self }
    }

    /// The failure of node `id` has a cause: the node's own work, which
    /// went out once all its dependencies were ready, or a dependency that
    /// has failed with the same error.
    pub open spec fn caused(self, id: NodeId) -> bool {
        ||| forall|k: int|
            0 <= k < id.spec_dependencies().len()
                ==> self.nodes[#[trigger] id.spec_dependencies()[k]] is Ready
        ||| exists|k: int|
            0 <= k < id.spec_dependencies().len()
                && self.nodes[#[trigger] id.spec_dependencies()[k]] == self.nodes[id]
    }

    /// Every node has a state; a node whose own work was handed out has all
    /// its dependencies ready; every failure has a cause; the gateways'
    /// identities are on record only if both gateways are ready, and the
    /// gateways are confirmed only if the client has joined.
    pub open spec fn wf(self) -> bool {
        &&& forall|id: NodeId| self.nodes.dom().contains(id)
        &&& forall|id: NodeId| #[trigger] self.nodes[id] is Failed ==> self.caused(id)
        &&& self.gateway_ids.is_some() ==> self.nodes[NodeId::GwCln] is Ready
            && self.nodes[NodeId::GwLnd] is Ready
        &&& self.gateways_confirmed ==> self.accepts_confirmation()
        &&& forall|id: NodeId, k: int|
            #![trigger self.nodes[id], id.spec_dependencies()[k]]
            self.nodes[id].is_launched() && 0 <= k < id.spec_dependencies().len()
                ==> self.nodes[id.spec_dependencies()[k]] is Ready
    }

    /// The first place from `k` on in `deps` whose node is not ready, or
    /// the length of `deps`.
    pub open spec fn first_unready(self, deps: Seq<NodeId>, k: int) -> int
        decreases deps.len() - k,
    {
        if k < 0 || k >= deps.len() {
            deps.len() as int
        } else if !(self.nodes[deps[k]] is Ready) {
            k
        } else {
            self.first_unready(deps, k + 1)
        }
    }

    /// One request for node `id`: the cluster afterwards, and the answer.
    ///
    /// A resolved node answers from its cache. A node whose work is out
    /// answers `Wait`. Otherwise the producer runs as far as it can: it
    /// asks for its first dependency that is not ready; if that one fails,
    /// so does the node, with the same error; if all are ready, the node's
    /// own work is handed out. (A dependency that is not ready is never
    /// answered `Ready`: the last arm is there for the shape of the match.)
    pub open spec fn request(self, id: NodeId) -> (Self, Progress)
        decreases id.spec_index(),
        via Self::request_terminates
    {
        let deps = id.spec_dependencies();
        let place = self.first_unready(deps, 0);
        match self.nodes[id] {
            Node::Ready(_) => (self, Progress::Ready),
            Node::Failed(_) => (self, Progress::Failed(id)),
            Node::InProgress(Phase::Working) => (self, Progress::Pending(Action::Wait)),
            _ => if place >= deps.len() {
                (
                    self.with_node(id, Node::InProgress(Phase::Working)),
                    Progress::Pending(Action::Launch(id)),
                )
            } else {
                let (next, progress) = self.request(deps[place]);
                match progress {
                    Progress::Failed(_) => (
                        next.with_node(id, next.nodes[deps[place]]),
                        Progress::Failed(id),
                    ),
                    Progress::Pending(action) => (
                        next.with_node(id, Node::InProgress(Phase::Awaiting)),
                        Progress::Pending(action),
                    ),
                    Progress::Ready => (next, Progress::Ready),
                }
            },
        }
    }

    /// The item `task` of a plan is met: a walk passes it at once.
    pub open spec fn met(self, task: Task) -> bool {
        match task {
            Task::Force(id) => self.nodes[id] is Ready,
            Task::ReportGatewayIds => self.gateway_ids.is_some(),
            Task::ConfirmGateways => self.gateways_confirmed,
        }
    }

    /// The first place from `k` on in `plan` whose item is not met, or the
    /// length of `plan`.
    pub open spec fn first_unmet(self, plan: Seq<Task>, k: int) -> int
        decreases plan.len() - k,
    {
        if k < 0 || k >= plan.len() {
            plan.len() as int
        } else if !self.met(plan[k]) {
            k
        } else {
            self.first_unmet(plan, k + 1)
        }
    }

    /// One walk through `plan`: the cluster afterwards, and the answer.
    ///
    /// The walk passes every item that is met and stops at the first that
    /// is not. There it asks for the node that the item names, or for the
    /// record that the item waits for. It is `Ready`, and has changed
    /// nothing, when every item is met.
    pub open spec fn perform(self, plan: Seq<Task>) -> (Self, Progress) {
        let place = self.first_unmet(plan, 0);
        if place >= plan.len() {
            (self, Progress::Ready)
        } else {
            match plan[place] {
                Task::Force(id) => self.request(id),
                Task::ReportGatewayIds => (self, Progress::Pending(Action::ReportGatewayIds)),
                Task::ConfirmGateways => (self, Progress::Pending(Action::ConfirmGateways)),
            }
        }
    }

    /// The first node from place `k` on that has failed.
    pub open spec fn first_failed(self, k: nat) -> Option<NodeId>
        decreases NODE_COUNT - k,
    {
        if k >= NODE_COUNT {
            None
        } else if self.nodes[NodeId::spec_from_index(k)] is Failed {
            Some(NodeId::spec_from_index(k))
        } else {
            self.first_failed(k + 1)
        }
    }

    /// The work of node `id` can go out now: it is not out yet, the node is
    /// not resolved, and all its dependencies are ready.
    pub open spec fn launchable(self, id: NodeId) -> bool {
        &&& self.nodes[id] is Unstarted || self.nodes[id] == Node::<V, E>::InProgress(
            Phase::Awaiting,
        )
        &&& self.first_unready(id.spec_dependencies(), 0) >= id.spec_dependencies().len()
    }

    /// The first node from place `k` on whose work can go out now.
    pub open spec fn first_launchable(self, k: nat) -> Option<NodeId>
        decreases NODE_COUNT - k,
    {
        if k >= NODE_COUNT {
            None
        } else if self.launchable(NodeId::spec_from_index(k)) {
            Some(NodeId::spec_from_index(k))
        } else {
            self.first_launchable(k + 1)
        }
    }

    /// One step of the eager start: the cluster afterwards, and the answer.
    ///
    /// The first failure in the numbering of the nodes ends the start.
    /// Without one, the work of the first node whose dependencies are all
    /// ready goes out. With no such node, the step is that of finalization.
    pub open spec fn start_all(self) -> (Self, Progress) {
        match self.first_failed(0) {
            Some(n) => (self, Progress::Failed(n)),
            None => match self.first_launchable(0) {
                Some(n) => self.request(n),
                None => self.perform(finalize_plan()),
            },
        }
    }

    /// The gateways' identities can go on record: there is none yet, and
    /// both gateways are ready.
    pub open spec fn accepts_gateway_ids(self) -> bool {
        &&& self.gateway_ids.is_none()
        &&& self.nodes[NodeId::GwCln] is Ready
        &&& self.nodes[NodeId::GwLnd] is Ready
    }

    /// The cluster after the gateways' identities were reported: they are
    /// on record if they could go there, and nothing changes otherwise.
    pub open spec fn publish_gateway_ids(self, gw_cln: Seq<char>, gw_lnd: Seq<char>) -> Self {
        if self.accepts_gateway_ids() {
            Cluster { gateway_ids: Some((gw_cln, gw_lnd)), ..self }
        } else {
            self
        }
    }

    /// The federation can be recorded as listing its gateways: the client
    /// has joined.
    pub open spec fn accepts_confirmation(self) -> bool {
        self.nodes[NodeId::FedClientJoined] is Ready
    }

    /// The cluster after the federation was seen to list its gateways.
    pub open spec fn confirm_gateways(self) -> Self {
        if self.accepts_confirmation() {
            Cluster { gateways_confirmed: true, ..self }
        } else {
            self
        }
    }

    #[via_fn]
    proof fn request_terminates(self, id: NodeId) {
        let deps = id.spec_dependencies();
        let place = self.first_unready(deps, 0);
        lemma_first_unready(self, deps, 0);
        if place < deps.len() {
            lemma_dependencies_come_first(id, place);
        }
    }

    /// Node `id` can take an outcome: its own work is out.
    pub open spec fn accepts(self, id: NodeId) -> bool {
        self.nodes[id].is_working()
    }

    /// The cluster after the outcome of node `id`'s own work has come back:
    /// the node is resolved if its work was out, and nothing changes
    /// otherwise.
    pub open spec fn resolve(self, id: NodeId, outcome: Result<V, E>) -> Self {
        if self.accepts(id) {
            match outcome {
                Ok(v) => self.with_node(id, Node::Ready(v)),
                Err(e) => self.with_node(id, Node::Failed(e)),
            }
        } else {
            self
        }
    }
}

/// `first_unready` finds the first dependency that is not ready: all before
/// it are ready, and it is not.
pub proof fn lemma_first_unready<V, E>(s: Cluster<V, E>, deps: Seq<NodeId>, k: int)
    requires
        0 <= k <= deps.len(),
    ensures
        k <= s.first_unready(deps, k) <= deps.len(),
        forall|j: int| k <= j < s.first_unready(deps, k) ==> s.nodes[#[trigger] deps[j]] is Ready,
        s.first_unready(deps, k) < deps.len() ==> !(s.nodes[deps[s.first_unready(deps, k)]] is Ready),
    decreases deps.len() - k,
{
    if k < deps.len() && s.nodes[deps[k]] is Ready {
        lemma_first_unready(s, deps, k + 1);
    }
}

/// One step that a caller of the cluster can take.
pub enum Step<V, E> {
    /// A request for a node.
    Get(NodeId),
    /// A walk through a plan: that of finalization, or that of an accessor.
    Walk(Seq<Task>),
    /// A step of the eager start.
    StartAll,
    /// The outcome of a node's own work comes back.
    Resolve(NodeId, Result<V, E>),
    /// The identities of the gateways are reported.
    PublishGatewayIds(Seq<char>, Seq<char>),
    /// The federation is seen to list its gateways.
    ConfirmGateways,
}

impl<V, E> Step<V, E> {
    /// The step may ask for node `n`: it requests a node that reaches `n`.
    pub open spec fn asks_for(self, n: NodeId) -> bool {
        match self {
            Step::Get(id) => id.reaches(n),
            Step::Walk(plan) => plan_reaches(plan, n),
            Step::StartAll => true,
            _ => false,
        }
    }
}

/// A walk through `plan` may ask for node `n`.
pub open spec fn plan_reaches(plan: Seq<Task>, n: NodeId) -> bool {
    exists|j: int|
        0 <= j < plan.len() && (#[trigger] plan[j] matches Task::Force(id) && id.reaches(n))
}

impl<V, E> Cluster<V, E> {
    /// The cluster after `step`, and the answer where the step has one.
    pub open spec fn apply(self, step: Step<V, E>) -> (Self, Option<Progress>) {
        match step {
            Step::Get(id) => (self.request(id).0, Some(self.request(id).1)),
            Step::Walk(plan) => (self.perform(plan).0, Some(self.perform(plan).1)),
            Step::StartAll => (self.start_all().0, Some(self.start_all().1)),
            Step::Resolve(id, outcome) => (self.resolve(id, outcome), None),
            Step::PublishGatewayIds(gw_cln, gw_lnd) => (
                self.publish_gateway_ids(gw_cln, gw_lnd),
                None,
            ),
            Step::ConfirmGateways => (self.confirm_gateways(), None),
        }
    }

    /// The cluster after `steps`, one after the other.
    pub open spec fn after(self, steps: Seq<Step<V, E>>) -> Self
        decreases steps.len(),
    {
        if steps.len() == 0 {
            self
        } else {
            self.after(steps.drop_last()).apply(steps.last()).0
        }
    }

    /// How often, in the course of `steps`, the work of node `n` is handed
    /// out.
    pub open spec fn launch_count(self, steps: Seq<Step<V, E>>, n: NodeId) -> nat
        decreases steps.len(),
    {
        if steps.len() == 0 {
            0
        } else {
            let before = self.after(steps.drop_last());
            let once: nat = if before.apply(steps.last()).1 == Some(
                Progress::Pending(Action::Launch(n)),
            ) {
                1
            } else {
                0
            };
            self.launch_count(steps.drop_last(), n) + once
        }
    }

    /// The work of node `n` has been handed out or will never be: it is
    /// out, or the node is resolved.
    pub open spec fn spent(self, n: NodeId) -> bool {
        self.nodes[n].is_working() || self.nodes[n].is_terminal()
    }
}

/// `first_unmet` finds the first item that is not met: all before it are
/// met, and it is not.
pub proof fn lemma_first_unmet<V, E>(s: Cluster<V, E>, plan: Seq<Task>, k: int)
    requires
        0 <= k <= plan.len(),
    ensures
        k <= s.first_unmet(plan, k) <= plan.len(),
        forall|j: int| k <= j < s.first_unmet(plan, k) ==> s.met(#[trigger] plan[j]),
        s.first_unmet(plan, k) < plan.len() ==> !s.met(plan[s.first_unmet(plan, k)]),
    decreases plan.len() - k,
{
    if k < plan.len() && s.met(plan[k]) {
        lemma_first_unmet(s, plan, k + 1);
    }
}

impl<V, E> Cluster<V, E> {
    /// No work is out and no node has failed: every outcome so far has come
    /// back, and each was a success.
    pub open spec fn quiet(self) -> bool {
        forall|n: NodeId| !(#[trigger] self.nodes[n]).is_working() && !(self.nodes[n] is Failed)
    }

    /// How many nodes from place `k` on are not ready.
    pub open spec fn unready_from(self, k: nat) -> nat
        decreases NODE_COUNT - k,
    {
        if k >= NODE_COUNT {
            0
        } else {
            let one: nat = if self.nodes[NodeId::spec_from_index(k)] is Ready {
                0
            } else {
                1
            };
            one + self.unready_from(k + 1)
        }
    }

    /// What is left to do before the cluster is up: the nodes that are not
    /// ready, and the records that are not made.
    pub open spec fn remaining(self) -> nat {
        let ids: nat = if self.gateway_ids.is_none() {
            1
        } else {
            0
        };
        let confirmation: nat = if self.gateways_confirmed {
            0
        } else {
            1
        };
        self.unready_from(0) + ids + confirmation
    }

    /// One step towards the whole cluster: that of the eager start, or that
    /// of finalization.
    pub open spec fn step(self, eager: bool) -> (Self, Progress) {
        if eager {
            self.start_all()
        } else {
            self.perform(finalize_plan())
        }
    }

    /// One round in which the outside work succeeds: a step, and then what
    /// the step asked for is done. Launched work gives the value that
    /// `values` has for its node; the gateways report `gw_cln` and `gw_lnd`.
    pub open spec fn succeed(
        self,
        eager: bool,
        values: spec_fn(NodeId) -> V,
        gw_cln: Seq<char>,
        gw_lnd: Seq<char>,
    ) -> Self {
        let (next, progress) = self.step(eager);
        match progress {
            Progress::Pending(Action::Launch(n)) => next.resolve(n, Ok(values(n))),
            Progress::Pending(Action::ReportGatewayIds) => next.publish_gateway_ids(
                gw_cln,
                gw_lnd,
            ),
            Progress::Pending(Action::ConfirmGateways) => next.confirm_gateways(),
            _ => next,
        }
    }

    /// The cluster after `rounds` rounds in which the outside work succeeds.
    pub open spec fn succeed_times(
        self,
        eager: bool,
        values: spec_fn(NodeId) -> V,
        gw_cln: Seq<char>,
        gw_lnd: Seq<char>,
        rounds: nat,
    ) -> Self
        decreases rounds,
    {
        if rounds == 0 {
            self
        } else {
            self.succeed(eager, values, gw_cln, gw_lnd).succeed_times(
                eager,
                values,
                gw_cln,
                gw_lnd,
                (rounds - 1) as nat,
            )
        }
    }
}

} // verus!
