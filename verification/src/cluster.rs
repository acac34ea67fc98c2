//! The cluster in memory, and the steps that advance it.

use vstd::prelude::*;
use crate::laws::{lemma_perform, lemma_request, lemma_start_all};
use crate::model::{
    client_gw_registered_plan, client_registered_plan, elapsed_millis, finalize_plan,
    registered_plan, Action, Cluster, Progress, Task, NANOS_PER_MILLI,
};
use crate::node::{Node, Phase};
use crate::threshold::{check_threshold, reaches_consensus, ConfigError};
use crate::topology::{lemma_dependencies_come_first, NodeId, NODE_COUNT};

verus! {

/// Why a node has failed: its own work did, or a node that it asked for.
/// An error is kept once, at the node whose work gave it.
enum Failure<E> {
    /// The node's own work gave this error.
    Own(E),
    /// The node asked for a node that had failed; the error lies at the
    /// node named here, whose own work gave it.
    Inherited(NodeId),
}

/// The state of a node without what it holds.
#[derive(Clone, Copy, Debug, PartialEq, Eq, Structural)]
pub enum Lifecycle {
    /// Nothing has asked for the node yet.
    Unstarted,
    /// The producer runs.
    InProgress,
    /// The producer has given its value.
    Ready,
    /// The producer has failed.
    Failed,
}

/// The answer to a request.
#[derive(Debug)]
pub enum Poll<'a, T, E> {
    /// What was asked for.
    Ready(T),
    /// The error that stands in the cache.
    Failed(&'a E),
    /// Outside work stands in the way: do it and ask again.
    Pending(Action),
}

/// The lazily started cluster: one memoized node for each part of the
/// deployment.
pub struct DevJitFed<V, E> {
    nodes: Vec<Node<V, Failure<E>>>,
    gateway_ids: Option<(String, String)>,
    gateways_confirmed: bool,
    started_at: u128,
}

/// The state of the node at place `i`, with an inherited error looked up.
spec fn lifted<V, E>(nodes: Seq<Node<V, Failure<E>>>, i: int) -> Node<V, E> {
    match nodes[i] {
        Node::Unstarted => Node::Unstarted,
        Node::InProgress(phase) => Node::InProgress(phase),
        Node::Ready(v) => Node::Ready(v),
        Node::Failed(Failure::Own(e)) => Node::Failed(e),
        Node::Failed(Failure::Inherited(root)) => match nodes[root.spec_index() as int] {
            Node::Failed(Failure::Own(e)) => Node::Failed(e),
            _ => Node::Unstarted,
        },
    }
}

/// The two identities as sequences of characters.
spec fn ids_view(ids: Option<(String, String)>) -> Option<(Seq<char>, Seq<char>)> {
    match ids {
        Some((gw_cln, gw_lnd)) => Some((gw_cln@, gw_lnd@)),
        None => None,
    }
}

impl<V, E> View for DevJitFed<V, E> {
    type V = Cluster<V, E>;

    closed spec fn view(&self) -> Cluster<V, E> {
        Cluster {
            nodes: Map::total(|id: NodeId| lifted(self.nodes@, id.spec_index() as int)),
            gateway_ids: ids_view(self.gateway_ids),
            gateways_confirmed: self.gateways_confirmed,
            started_at: self.started_at as nat,
        }
    }
}

impl<V, E> DevJitFed<V, E> {
    /// There is a slot for every node, and every inherited failure names a
    /// node whose own work failed.
    closed spec fn slots_ok(&self) -> bool {
        &&& self.nodes@.len() == NODE_COUNT
        &&& forall|i: int|
            0 <= i < self.nodes@.len() ==> match #[trigger] self.nodes@[i] {
                Node::Failed(Failure::Inherited(root)) => self.nodes@[root.spec_index() as int] matches Node::Failed(
                    Failure::Own(_),
                ),
                _ => true,
            }
    }

    /// The cluster is well formed: what its constructor gives and every
    /// step keeps.
    pub closed spec fn wf(&self) -> bool {
        self.slots_ok() && self@.wf()
    }

    /// A well-formed cluster has a well-formed view.
    pub proof fn lemma_view_wf(&self)
        requires
            self.wf(),
        ensures
            self@.wf(),
    {
    }

    /// Wires the cluster at time `now`, in nanoseconds. Nothing is started:
    /// every node waits for its first request. A deployment that cannot
    /// reach consensus is refused before anything is wired.
    pub fn new(fed_size: usize, offline_nodes: usize, now: u128) -> (res: Result<
        Self,
        ConfigError,
    >)
        ensures
            match res {
                Ok(cluster) => reaches_consensus(fed_size as int, offline_nodes as int)
                    && cluster.wf() && cluster@ == Cluster::<V, E>::fresh(now as nat),
                Err(e) => !reaches_consensus(fed_size as int, offline_nodes as int) && e == (
                ConfigError { offline_nodes }),
            },
    {
        match check_threshold(fed_size, offline_nodes) {
            Err(e) => Err(e),
            Ok(()) => {
                let mut nodes: Vec<Node<V, Failure<E>>> = Vec::new();
                let mut i: usize = 0;
                while i < NODE_COUNT
                    invariant
                        i <= NODE_COUNT,
                        nodes@.len() == i,
                        forall|j: int| 0 <= j < i ==> nodes@[j] is Unstarted,
                    decreases NODE_COUNT - i,
                {
                    nodes.push(Node::new());
                    i += 1;
                }
                let cluster = DevJitFed {
                    nodes,
                    gateway_ids: None,
                    gateways_confirmed: false,
                    started_at: now,
                };
                assert(cluster@.nodes =~= Cluster::<V, E>::fresh(now as nat).nodes);
                Ok(cluster)
            },
        }
    }

    /// Where node `id` stands.
    pub fn lifecycle(&self, id: NodeId) -> (state: Lifecycle)
        requires
            self.wf(),
        ensures
            state == match self@.nodes[id] {
                Node::Unstarted => Lifecycle::Unstarted,
                Node::InProgress(_) => Lifecycle::InProgress,
                Node::Ready(_) => Lifecycle::Ready,
                Node::Failed(_) => Lifecycle::Failed,
            },
    {
        match &self.nodes[id.index()] {
            Node::Unstarted => Lifecycle::Unstarted,
            Node::InProgress(_) => Lifecycle::InProgress,
            Node::Ready(_) => Lifecycle::Ready,
            Node::Failed(_) => Lifecycle::Failed,
        }
    }

    /// The value of node `id`, once it is ready.
    pub fn value(&self, id: NodeId) -> (res: Option<&V>)
        requires
            self.wf(),
        ensures
            match self@.nodes[id] {
                Node::Ready(v) => res == Some(&v),
                _ => res.is_none(),
            },
    {
        match &self.nodes[id.index()] {
            Node::Ready(v) => Some(v),
            _ => None,
        }
    }

    /// The error of node `id`, once it has failed.
    pub fn failure(&self, id: NodeId) -> (res: Option<&E>)
        requires
            self.wf(),
        ensures
            match self@.nodes[id] {
                Node::Failed(e) => res == Some(&e),
                _ => res.is_none(),
            },
    {
        match &self.nodes[id.index()] {
            Node::Failed(Failure::Own(e)) => Some(e),
            Node::Failed(Failure::Inherited(root)) => match &self.nodes[root.index()] {
                Node::Failed(Failure::Own(e)) => Some(e),
                _ => None,
            },
            _ => None,
        }
    }
}

/// Why a start cannot go on.
#[derive(Clone, Copy, Debug, PartialEq, Eq, Structural)]
pub enum StartupError {
    /// The deployment cannot reach consensus.
    Config(ConfigError),
    /// The clock stands before the time at which the cluster was wired.
    ClockWentBack,
}

/// `res` is the answer that `progress` stands for, when `wanted` is what
/// was asked for: the value of `wanted`, the error of the failed node, or
/// the outside work to do.
pub open spec fn answers<V, E>(
    res: Poll<'_, &V, E>,
    cluster: Cluster<V, E>,
    progress: Progress,
    wanted: NodeId,
) -> bool {
    match progress {
        Progress::Ready => cluster.nodes[wanted] matches Node::Ready(v) && res == Poll::<&V, E>::Ready(
            &v,
        ),
        Progress::Failed(n) => cluster.nodes[n] matches Node::Failed(e) && res == Poll::<
            &V,
            E,
        >::Failed(&e),
        Progress::Pending(action) => res == Poll::<&V, E>::Pending(action),
    }
}

/// `res` is what finalization gives at time `now` when its walk has
/// answered `progress`: the milliseconds since the cluster was wired, the
/// error of the failed node, or the outside work to do.
pub open spec fn finalized<V, E>(
    res: Result<Poll<'_, u128, E>, StartupError>,
    cluster: Cluster<V, E>,
    progress: Progress,
    now: u128,
) -> bool {
    match progress {
        Progress::Ready => match elapsed_millis(cluster.started_at, now as nat) {
            Some(ms) => res == Ok::<Poll<u128, E>, StartupError>(Poll::Ready(ms as u128)),
            None => res == Err::<Poll<u128, E>, StartupError>(StartupError::ClockWentBack),
        },
        Progress::Failed(n) => cluster.nodes[n] matches Node::Failed(e) && res == Ok::<
            Poll<u128, E>,
            StartupError,
        >(Poll::Failed(&e)),
        Progress::Pending(action) => res == Ok::<Poll<u128, E>, StartupError>(
            Poll::Pending(action),
        ),
    }
}

impl<V, E> DevJitFed<V, E> {
    /// Puts `node` into the slot of `id`, which holds no resolved node.
    fn put(&mut self, id: NodeId, node: Node<V, Failure<E>>)
        requires
            old(self).slots_ok(),
            !(old(self).nodes@[id.spec_index() as int] is Failed),
            match node {
                Node::Failed(Failure::Inherited(root)) => old(self).nodes@[root.spec_index() as int] matches Node::Failed(
                    Failure::Own(_),
                ),
                _ => true,
            },
        ensures
            final(self).slots_ok(),
            final(self).nodes@ == old(self).nodes@.update(id.spec_index() as int, node),
            final(self)@ == old(self)@.with_node(
                id,
                lifted(final(self).nodes@, id.spec_index() as int),
            ),
    {
        let i = id.index();
        self.nodes[i] = node;
        proof {
            assert forall|n: NodeId| n != id implies lifted(self.nodes@, n.spec_index() as int)
                == lifted(old(self).nodes@, n.spec_index() as int) by {}
            assert(self@.nodes =~= old(self)@.with_node(
                id,
                lifted(self.nodes@, id.spec_index() as int),
            ).nodes);
        }
    }

    /// The first place in `deps` whose node is not ready, or their number.
    fn first_unready(&self, deps: &Vec<NodeId>) -> (place: usize)
        requires
            self.slots_ok(),
        ensures
            place == self@.first_unready(deps@, 0),
            place <= deps@.len(),
    {
        let mut k: usize = 0;
        while k < deps.len()
            invariant
                self.slots_ok(),
                k <= deps@.len(),
                self@.first_unready(deps@, 0) == self@.first_unready(deps@, k as int),
            decreases deps@.len() - k,
        {
            match &self.nodes[deps[k].index()] {
                Node::Ready(_) => {},
                _ => {
                    return k;
                },
            }
            k += 1;
        }
        k
    }

    /// The node whose own work gave the error of the failed node `id`.
    fn root_of(&self, id: NodeId) -> (root: Option<NodeId>)
        requires
            self.slots_ok(),
        ensures
            root.is_some() <==> self@.nodes[id] is Failed,
            root.is_some() ==> (self.nodes@[root.unwrap().spec_index() as int] matches Node::Failed(
                Failure::Own(e),
            ) && self@.nodes[id] == Node::<V, E>::Failed(e)),
    {
        match &self.nodes[id.index()] {
            Node::Failed(Failure::Own(_)) => Some(id),
            Node::Failed(Failure::Inherited(root)) => Some(*root),
            _ => None,
        }
    }

    /// One request for node `id`, without the answer's payload.
    fn advance(&mut self, id: NodeId) -> (progress: Progress)
        requires
            old(self).wf(),
        ensures
            final(self).wf(),
            final(self)@ == old(self)@.request(id).0,
            progress == old(self)@.request(id).1,
        decreases id.spec_index(),
    {
        proof {
            lemma_request(self@, id);
        }
        match &self.nodes[id.index()] {
            Node::Ready(_) => {
                return Progress::Ready;
            },
            Node::Failed(_) => {
                return Progress::Failed(id);
            },
            Node::InProgress(Phase::Working) => {
                return Progress::Pending(Action::Wait);
            },
            _ => {},
        }
        let deps = id.dependencies();
        let place = self.first_unready(&deps);
        if place >= deps.len() {
            self.put(id, Node::InProgress(Phase::Working));
            return Progress::Pending(Action::Launch(id));
        }
        let dep = deps[place];
        proof {
            lemma_dependencies_come_first(id, place as int);
            lemma_request(self@, dep);
        }
        let progress = self.advance(dep);
        proof {
            assert(self@.nodes[id] == old(self)@.nodes[id]);
            assert(lifted(self.nodes@, id.spec_index() as int) == self@.nodes[id]);
        }
        match (progress, self.root_of(dep)) {
            (Progress::Failed(_), Some(root)) => {
                self.put(id, Node::Failed(Failure::Inherited(root)));
                Progress::Failed(id)
            },
            (Progress::Pending(action), _) => {
                self.put(id, Node::InProgress(Phase::Awaiting));
                Progress::Pending(action)
            },
            _ => Progress::Ready,
        }
    }

    /// Asks for node `id`.
    ///
    /// A resolved node answers from its cache, as often as it is asked. A
    /// node that nothing has asked for starts its producer, which asks for
    /// the node's dependencies in their order and then hands the node's own
    /// work out, once. A failed dependency fails the node with the same
    /// error, and nothing of the producer after that request runs.
    pub fn get(&mut self, id: NodeId) -> (res: Poll<'_, &V, E>)
        requires
            old(self).wf(),
        ensures
            final(self).wf(),
            final(self)@ == old(self)@.request(id).0,
            answers(res, final(self)@, old(self)@.request(id).1, id),
    {
        proof {
            lemma_request(self@, id);
        }
        let progress = self.advance(id);
        self.answer(progress, id)
    }

    /// Takes the outcome of node `id`'s own work. The node is resolved by
    /// it if that work was out; otherwise nothing changes and the answer is
    /// `false`.
    pub fn resolve(&mut self, id: NodeId, outcome: Result<V, E>) -> (accepted: bool)
        requires
            old(self).wf(),
        ensures
            final(self).wf(),
            accepted == old(self)@.accepts(id),
            final(self)@ == old(self)@.resolve(id, outcome),
    {
        match &self.nodes[id.index()] {
            Node::InProgress(Phase::Working) => {},
            _ => {
                return false;
            },
        }
        match outcome {
            Ok(v) => {
                self.put(id, Node::Ready(v));
            },
            Err(e) => {
                self.put(id, Node::Failed(Failure::Own(e)));
            },
        }
        true
    }
}

/// The walk of finalization, in memory.
fn finalize_tasks() -> (plan: Vec<Task>)
    ensures
        plan@ == finalize_plan(),
{
    let plan = vec![
        Task::Force(NodeId::GwCln),
        Task::Force(NodeId::GwLnd),
        Task::ReportGatewayIds,
        Task::Force(NodeId::FedClientJoined),
        Task::Force(NodeId::Fed),
        Task::Force(NodeId::GwClnRegistered),
        Task::Force(NodeId::GwLndRegistered),
        Task::ConfirmGateways,
        Task::Force(NodeId::Fed),
        Task::Force(NodeId::ChannelOpened),
        Task::Force(NodeId::GwClnRegistered),
        Task::Force(NodeId::GwCln),
        Task::Force(NodeId::GwLndRegistered),
        Task::Force(NodeId::GwLnd),
        Task::Force(NodeId::Cln),
        Task::Force(NodeId::Lnd),
        Task::Force(NodeId::Electrs),
        Task::Force(NodeId::Esplora),
        Task::Force(NodeId::FedEpochGenerated),
    ];
    assert(plan@ =~= finalize_plan());
    plan
}

impl<V, E> DevJitFed<V, E> {
    /// The answer that `progress` stands for when `wanted` was asked for.
    fn answer(&self, progress: Progress, wanted: NodeId) -> (res: Poll<'_, &V, E>)
        requires
            self.wf(),
            progress == Progress::Ready ==> self@.nodes[wanted] is Ready,
            progress matches Progress::Failed(n) ==> self@.nodes[n] is Failed,
        ensures
            answers(res, self@, progress, wanted),
    {
        match progress {
            Progress::Ready => match self.value(wanted) {
                Some(v) => Poll::Ready(v),
                None => Poll::Pending(Action::Wait),
            },
            Progress::Failed(n) => match self.failure(n) {
                Some(e) => Poll::Failed(e),
                None => Poll::Pending(Action::Wait),
            },
            Progress::Pending(action) => Poll::Pending(action),
        }
    }

    /// One walk through `plan`, without the answer's payload.
    fn run(&mut self, plan: &Vec<Task>) -> (progress: Progress)
        requires
            old(self).wf(),
        ensures
            final(self).wf(),
            final(self)@ == old(self)@.perform(plan@).0,
            progress == old(self)@.perform(plan@).1,
    {
        let ghost start = self@;
        let mut k: usize = 0;
        while k < plan.len()
            invariant
                self.wf(),
                k <= plan@.len(),
                start == old(self)@,
                self@ == start,
                start.first_unmet(plan@, 0) == start.first_unmet(plan@, k as int),
            decreases plan@.len() - k,
        {
            match plan[k] {
                Task::Force(id) => {
                    proof {
                        lemma_request(self@, id);
                    }
                    let progress = self.advance(id);
                    match progress {
                        Progress::Ready => {},
                        _ => {
                            return progress;
                        },
                    }
                },
                Task::ReportGatewayIds => {
                    if self.gateway_ids.is_none() {
                        return Progress::Pending(Action::ReportGatewayIds);
                    }
                },
                Task::ConfirmGateways => {
                    if !self.gateways_confirmed {
                        return Progress::Pending(Action::ConfirmGateways);
                    }
                },
            }
            k += 1;
        }
        Progress::Ready
    }

    /// One walk through `plan` for the node `wanted`, which the plan forces
    /// at place `at`.
    fn walk(&mut self, plan: &Vec<Task>, wanted: NodeId, Ghost(at): Ghost<int>) -> (res: Poll<
        '_,
        &V,
        E,
    >)
        requires
            old(self).wf(),
            0 <= at < plan@.len(),
            plan@[at] == Task::Force(wanted),
        ensures
            final(self).wf(),
            final(self)@ == old(self)@.perform(plan@).0,
            answers(res, final(self)@, old(self)@.perform(plan@).1, wanted),
    {
        proof {
            lemma_perform(self@, plan@);
            assert(old(self)@.perform(plan@).1 == Progress::Ready ==> old(self)@.met(plan@[at]));
        }
        let progress = self.run(plan);
        self.answer(progress, wanted)
    }

    /// The first chain indexer.
    pub fn electrs(&mut self) -> (res: Poll<'_, &V, E>)
        requires
            old(self).wf(),
        ensures
            final(self).wf(),
            final(self)@ == old(self)@.request(NodeId::Electrs).0,
            answers(res, final(self)@, old(self)@.request(NodeId::Electrs).1, NodeId::Electrs),
    {
        self.get(NodeId::Electrs)
    }

    /// The second chain indexer.
    pub fn esplora(&mut self) -> (res: Poll<'_, &V, E>)
        requires
            old(self).wf(),
        ensures
            final(self).wf(),
            final(self)@ == old(self)@.request(NodeId::Esplora).0,
            answers(res, final(self)@, old(self)@.request(NodeId::Esplora).1, NodeId::Esplora),
    {
        self.get(NodeId::Esplora)
    }

    /// The first payment node.
    pub fn cln(&mut self) -> (res: Poll<'_, &V, E>)
        requires
            old(self).wf(),
        ensures
            final(self).wf(),
            final(self)@ == old(self)@.request(NodeId::Cln).0,
            answers(res, final(self)@, old(self)@.request(NodeId::Cln).1, NodeId::Cln),
    {
        self.get(NodeId::Cln)
    }

    /// The second payment node.
    pub fn lnd(&mut self) -> (res: Poll<'_, &V, E>)
        requires
            old(self).wf(),
        ensures
            final(self).wf(),
            final(self)@ == old(self)@.request(NodeId::Lnd).0,
            answers(res, final(self)@, old(self)@.request(NodeId::Lnd).1, NodeId::Lnd),
    {
        self.get(NodeId::Lnd)
    }

    /// The gateway of the first payment node.
    pub fn gw_cln(&mut self) -> (res: Poll<'_, &V, E>)
        requires
            old(self).wf(),
        ensures
            final(self).wf(),
            final(self)@ == old(self)@.request(NodeId::GwCln).0,
            answers(res, final(self)@, old(self)@.request(NodeId::GwCln).1, NodeId::GwCln),
    {
        self.get(NodeId::GwCln)
    }

    /// The gateway of the first payment node, once it has joined the
    /// federation.
    pub fn gw_cln_registered(&mut self) -> (res: Poll<'_, &V, E>)
        requires
            old(self).wf(),
        ensures
            final(self).wf(),
            final(self)@ == old(self)@.perform(registered_plan(NodeId::GwClnRegistered, NodeId::GwCln)).0,
            answers(
                res,
                final(self)@,
                old(self)@.perform(registered_plan(NodeId::GwClnRegistered, NodeId::GwCln)).1,
                NodeId::GwCln,
            ),
    {
        let plan = vec![Task::Force(NodeId::GwClnRegistered), Task::Force(NodeId::GwCln)];
        assert(plan@ =~= registered_plan(NodeId::GwClnRegistered, NodeId::GwCln));
        self.walk(&plan, NodeId::GwCln, Ghost(1))
    }

    /// The gateway of the second payment node.
    pub fn gw_lnd(&mut self) -> (res: Poll<'_, &V, E>)
        requires
            old(self).wf(),
        ensures
            final(self).wf(),
            final(self)@ == old(self)@.request(NodeId::GwLnd).0,
            answers(res, final(self)@, old(self)@.request(NodeId::GwLnd).1, NodeId::GwLnd),
    {
        self.get(NodeId::GwLnd)
    }

    /// The gateway of the second payment node, once it has joined the
    /// federation.
    pub fn gw_lnd_registered(&mut self) -> (res: Poll<'_, &V, E>)
        requires
            old(self).wf(),
        ensures
            final(self).wf(),
            final(self)@ == old(self)@.perform(registered_plan(NodeId::GwLndRegistered, NodeId::GwLnd)).0,
            answers(
                res,
                final(self)@,
                old(self)@.perform(registered_plan(NodeId::GwLndRegistered, NodeId::GwLnd)).1,
                NodeId::GwLnd,
            ),
    {
        let plan = vec![Task::Force(NodeId::GwLndRegistered), Task::Force(NodeId::GwLnd)];
        assert(plan@ =~= registered_plan(NodeId::GwLndRegistered, NodeId::GwLnd));
        self.walk(&plan, NodeId::GwLnd, Ghost(1))
    }

    /// The federation.
    pub fn fed(&mut self) -> (res: Poll<'_, &V, E>)
        requires
            old(self).wf(),
        ensures
            final(self).wf(),
            final(self)@ == old(self)@.request(NodeId::Fed).0,
            answers(res, final(self)@, old(self)@.request(NodeId::Fed).1, NodeId::Fed),
    {
        self.get(NodeId::Fed)
    }

    /// The base chain daemon.
    pub fn bitcoind(&mut self) -> (res: Poll<'_, &V, E>)
        requires
            old(self).wf(),
        ensures
            final(self).wf(),
            final(self)@ == old(self)@.request(NodeId::Bitcoind).0,
            answers(res, final(self)@, old(self)@.request(NodeId::Bitcoind).1, NodeId::Bitcoind),
    {
        self.get(NodeId::Bitcoind)
    }

    /// The federation whose internal client has joined it.
    pub fn client_registered(&mut self) -> (res: Poll<'_, &V, E>)
        requires
            old(self).wf(),
        ensures
            final(self).wf(),
            final(self)@ == old(self)@.perform(client_registered_plan()).0,
            answers(
                res,
                final(self)@,
                old(self)@.perform(client_registered_plan()).1,
                NodeId::Fed,
            ),
    {
        let plan = vec![Task::Force(NodeId::FedClientJoined), Task::Force(NodeId::Fed)];
        assert(plan@ =~= client_registered_plan());
        self.walk(&plan, NodeId::Fed, Ghost(1))
    }

    /// The federation whose internal client has joined it and sees its
    /// gateways. Only the client's marker and the federation are asked for:
    /// no gateway is started on this account.
    pub fn client_gw_registered(&mut self) -> (res: Poll<'_, &V, E>)
        requires
            old(self).wf(),
        ensures
            final(self).wf(),
            final(self)@ == old(self)@.perform(client_gw_registered_plan()).0,
            answers(
                res,
                final(self)@,
                old(self)@.perform(client_gw_registered_plan()).1,
                NodeId::Fed,
            ),
    {
        let plan = vec![
            Task::Force(NodeId::FedClientJoined),
            Task::Force(NodeId::Fed),
            Task::ConfirmGateways,
            Task::Force(NodeId::Fed),
        ];
        assert(plan@ =~= client_gw_registered_plan());
        self.walk(&plan, NodeId::Fed, Ghost(1))
    }

    /// Puts the identities of the two gateways on record. They go there
    /// once, and only when both gateways are ready; otherwise nothing
    /// changes and the answer is `false`.
    pub fn publish_gateway_ids(&mut self, gw_cln: String, gw_lnd: String) -> (accepted: bool)
        requires
            old(self).wf(),
        ensures
            final(self).wf(),
            accepted == old(self)@.accepts_gateway_ids(),
            final(self)@ == old(self)@.publish_gateway_ids(gw_cln@, gw_lnd@),
    {
        if self.gateway_ids.is_some() {
            return false;
        }
        match (&self.nodes[NodeId::GwCln.index()], &self.nodes[NodeId::GwLnd.index()]) {
            (Node::Ready(_), Node::Ready(_)) => {},
            _ => {
                return false;
            },
        }
        self.gateway_ids = Some((gw_cln, gw_lnd));
        assert(self@.nodes =~= old(self)@.nodes);
        true
    }

    /// The identities of the two gateways, once they are on record: that of
    /// the first payment node's gateway, then that of the second's.
    pub fn gateway_ids(&self) -> (ids: Option<(&String, &String)>)
        requires
            self.wf(),
        ensures
            match self@.gateway_ids {
                Some((gw_cln, gw_lnd)) => ids.is_some() && ids.unwrap().0@ == gw_cln
                    && ids.unwrap().1@ == gw_lnd,
                None => ids.is_none(),
            },
    {
        match &self.gateway_ids {
            Some((gw_cln, gw_lnd)) => Some((gw_cln, gw_lnd)),
            None => None,
        }
    }

    /// Records that the federation lists its gateways. This takes the
    /// client to have joined; otherwise nothing changes and the answer is
    /// `false`.
    pub fn confirm_gateways(&mut self) -> (accepted: bool)
        requires
            old(self).wf(),
        ensures
            final(self).wf(),
            accepted == old(self)@.accepts_confirmation(),
            final(self)@ == old(self)@.confirm_gateways(),
    {
        match &self.nodes[NodeId::FedClientJoined.index()] {
            Node::Ready(_) => {},
            _ => {
                return false;
            },
        }
        self.gateways_confirmed = true;
        assert(self@.nodes =~= old(self)@.nodes);
        true
    }

    /// The whole milliseconds since the cluster was wired, at time `now` in
    /// nanoseconds; nothing if the clock has gone back.
    pub fn elapsed_ms(&self, now: u128) -> (ms: Option<u128>)
        ensures
            match elapsed_millis(self@.started_at, now as nat) {
                Some(n) => ms == Some(n as u128),
                None => ms.is_none(),
            },
    {
        if now >= self.started_at {
            Some((now - self.started_at) / NANOS_PER_MILLI)
        } else {
            None
        }
    }

    /// One step of finalization at time `now`, in nanoseconds.
    ///
    /// A deployment that cannot reach consensus is refused, and nothing
    /// changes. Otherwise the cluster is walked in the order of
    /// `finalize_plan`, up to the first item that is not met: the answer is
    /// the outside work that this item waits for, or the error of the node
    /// that has failed. When every item is met, the answer is the time
    /// since the cluster was wired, in milliseconds.
    pub fn finalize(&mut self, fed_size: usize, offline_nodes: usize, now: u128) -> (res: Result<
        Poll<'_, u128, E>,
        StartupError,
    >)
        requires
            old(self).wf(),
        ensures
            final(self).wf(),
            !reaches_consensus(fed_size as int, offline_nodes as int) ==> final(self)@ == old(
                self,
            )@ && res == Err::<Poll<u128, E>, StartupError>(
                StartupError::Config(ConfigError { offline_nodes }),
            ),
            reaches_consensus(fed_size as int, offline_nodes as int) ==> final(self)@ == old(
                self,
            )@.perform(finalize_plan()).0 && finalized(
                res,
                final(self)@,
                old(self)@.perform(finalize_plan()).1,
                now,
            ),
    {
        match check_threshold(fed_size, offline_nodes) {
            Err(e) => {
                return Err(StartupError::Config(e));
            },
            Ok(()) => {},
        }
        let plan = finalize_tasks();
        proof {
            lemma_perform(self@, plan@);
        }
        let progress = self.run(&plan);
        self.conclude(progress, now)
    }

    /// What a start gives at time `now` when its walk has answered
    /// `progress`.
    fn conclude(&self, progress: Progress, now: u128) -> (res: Result<
        Poll<'_, u128, E>,
        StartupError,
    >)
        requires
            self.wf(),
            progress matches Progress::Failed(n) ==> self@.nodes[n] is Failed,
        ensures
            finalized(res, self@, progress, now),
    {
        match progress {
            Progress::Ready => match self.elapsed_ms(now) {
                Some(ms) => Ok(Poll::Ready(ms)),
                None => Err(StartupError::ClockWentBack),
            },
            Progress::Failed(n) => match self.failure(n) {
                Some(e) => Ok(Poll::Failed(e)),
                None => Ok(Poll::Pending(Action::Wait)),
            },
            Progress::Pending(action) => Ok(Poll::Pending(action)),
        }
    }
}

/// The started deployment: a handle to each of its services.
#[derive(Clone, Debug)]
pub struct DevFed<V> {
    /// The base chain daemon.
    pub bitcoind: V,
    /// The first payment node.
    pub cln: V,
    /// The second payment node.
    pub lnd: V,
    /// The federation.
    pub fed: V,
    /// The gateway of the first payment node.
    pub gw_cln: V,
    /// The gateway of the second payment node.
    pub gw_lnd: V,
    /// The first chain indexer.
    pub electrs: V,
    /// The second chain indexer.
    pub esplora: V,
}

/// Every service of `cluster` is ready.
pub open spec fn all_services_ready<V, E>(cluster: Cluster<V, E>) -> bool {
    &&& cluster.nodes[NodeId::Bitcoind] is Ready
    &&& cluster.nodes[NodeId::Cln] is Ready
    &&& cluster.nodes[NodeId::Lnd] is Ready
    &&& cluster.nodes[NodeId::Fed] is Ready
    &&& cluster.nodes[NodeId::GwCln] is Ready
    &&& cluster.nodes[NodeId::GwLnd] is Ready
    &&& cluster.nodes[NodeId::Electrs] is Ready
    &&& cluster.nodes[NodeId::Esplora] is Ready
}

/// `fed` holds the value of each service of `cluster`.
pub open spec fn holds_services<V, E>(fed: DevFed<&V>, cluster: Cluster<V, E>) -> bool {
    &&& cluster.nodes[NodeId::Bitcoind] == Node::<V, E>::Ready(*fed.bitcoind)
    &&& cluster.nodes[NodeId::Cln] == Node::<V, E>::Ready(*fed.cln)
    &&& cluster.nodes[NodeId::Lnd] == Node::<V, E>::Ready(*fed.lnd)
    &&& cluster.nodes[NodeId::Fed] == Node::<V, E>::Ready(*fed.fed)
    &&& cluster.nodes[NodeId::GwCln] == Node::<V, E>::Ready(*fed.gw_cln)
    &&& cluster.nodes[NodeId::GwLnd] == Node::<V, E>::Ready(*fed.gw_lnd)
    &&& cluster.nodes[NodeId::Electrs] == Node::<V, E>::Ready(*fed.electrs)
    &&& cluster.nodes[NodeId::Esplora] == Node::<V, E>::Ready(*fed.esplora)
}

/// `res` is what the eager start gives at time `now` when its step has
/// answered `progress`: the whole deployment with the milliseconds since
/// the cluster was wired, the error of the failed node, or the outside work
/// to do.
pub open spec fn started<V, E>(
    res: Result<Poll<'_, (DevFed<&V>, u128), E>, StartupError>,
    cluster: Cluster<V, E>,
    progress: Progress,
    now: u128,
) -> bool {
    match progress {
        Progress::Ready => match elapsed_millis(cluster.started_at, now as nat) {
            Some(ms) => res matches Ok(Poll::Ready((fed, elapsed))) && elapsed == ms
                && holds_services(fed, cluster),
            None => res == Err::<Poll<(DevFed<&V>, u128), E>, StartupError>(
                StartupError::ClockWentBack,
            ),
        },
        Progress::Failed(n) => cluster.nodes[n] matches Node::Failed(e) && res == Ok::<
            Poll<(DevFed<&V>, u128), E>,
            StartupError,
        >(Poll::Failed(&e)),
        Progress::Pending(action) => res == Ok::<Poll<(DevFed<&V>, u128), E>, StartupError>(
            Poll::Pending(action),
        ),
    }
}

impl<V, E> DevJitFed<V, E> {
    /// The first node that has failed, in the numbering of the nodes.
    fn first_failed(&self) -> (found: Option<NodeId>)
        requires
            self.wf(),
        ensures
            found == self@.first_failed(0),
    {
        let mut i: usize = 0;
        while i < NODE_COUNT
            invariant
                self.wf(),
                i <= NODE_COUNT,
                self@.first_failed(0) == self@.first_failed(i as nat),
            decreases NODE_COUNT - i,
        {
            match NodeId::from_index(i) {
                Some(id) => match &self.nodes[i] {
                    Node::Failed(_) => {
                        return Some(id);
                    },
                    _ => {},
                },
                None => {},
            }
            i += 1;
        }
        None
    }

    /// The work of node `id` can go out now.
    fn launchable(&self, id: NodeId) -> (yes: bool)
        requires
            self.wf(),
        ensures
            yes == self@.launchable(id),
    {
        match &self.nodes[id.index()] {
            Node::Unstarted => {},
            Node::InProgress(Phase::Awaiting) => {},
            _ => {
                return false;
            },
        }
        let deps = id.dependencies();
        self.first_unready(&deps) >= deps.len()
    }

    /// The first node whose work can go out now, in the numbering of the
    /// nodes.
    fn first_launchable(&self) -> (found: Option<NodeId>)
        requires
            self.wf(),
        ensures
            found == self@.first_launchable(0),
    {
        let mut i: usize = 0;
        while i < NODE_COUNT
            invariant
                self.wf(),
                i <= NODE_COUNT,
                self@.first_launchable(0) == self@.first_launchable(i as nat),
            decreases NODE_COUNT - i,
        {
            match NodeId::from_index(i) {
                Some(id) => {
                    if self.launchable(id) {
                        return Some(id);
                    }
                },
                None => {},
            }
            i += 1;
        }
        None
    }

    /// One step of the eager start, without the answer's payload.
    fn start_all(&mut self) -> (progress: Progress)
        requires
            old(self).wf(),
        ensures
            final(self).wf(),
            final(self)@ == old(self)@.start_all().0,
            progress == old(self)@.start_all().1,
    {
        match self.first_failed() {
            Some(n) => Progress::Failed(n),
            None => match self.first_launchable() {
                Some(n) => self.advance(n),
                None => {
                    let plan = finalize_tasks();
                    self.run(&plan)
                },
            },
        }
    }

    /// A handle to each service, if all of them are ready.
    fn whole(&self) -> (res: Option<DevFed<&V>>)
        requires
            self.wf(),
        ensures
            res.is_some() <==> all_services_ready(self@),
            res.is_some() ==> holds_services(res.unwrap(), self@),
    {
        match (
            self.value(NodeId::Bitcoind),
            self.value(NodeId::Cln),
            self.value(NodeId::Lnd),
            self.value(NodeId::Fed),
            self.value(NodeId::GwCln),
            self.value(NodeId::GwLnd),
            self.value(NodeId::Electrs),
            self.value(NodeId::Esplora),
        ) {
            (
                Some(bitcoind),
                Some(cln),
                Some(lnd),
                Some(fed),
                Some(gw_cln),
                Some(gw_lnd),
                Some(electrs),
                Some(esplora),
            ) => Some(DevFed { bitcoind, cln, lnd, fed, gw_cln, gw_lnd, electrs, esplora }),
            _ => None,
        }
    }

    /// What the eager start gives at time `now` when its step has answered
    /// `progress`.
    fn deliver(&self, progress: Progress, now: u128) -> (res: Result<
        Poll<'_, (DevFed<&V>, u128), E>,
        StartupError,
    >)
        requires
            self.wf(),
            progress == Progress::Ready ==> all_services_ready(self@),
            progress matches Progress::Failed(n) ==> self@.nodes[n] is Failed,
        ensures
            started(res, self@, progress, now),
    {
        match progress {
            Progress::Ready => match (self.elapsed_ms(now), self.whole()) {
                (Some(ms), Some(fed)) => Ok(Poll::Ready((fed, ms))),
                (None, _) => Err(StartupError::ClockWentBack),
                _ => Ok(Poll::Pending(Action::Wait)),
            },
            Progress::Failed(n) => match self.failure(n) {
                Some(e) => Ok(Poll::Failed(e)),
                None => Ok(Poll::Pending(Action::Wait)),
            },
            Progress::Pending(action) => Ok(Poll::Pending(action)),
        }
    }
}

/// One step of the eager start of `cluster` at time `now`, in nanoseconds.
///
/// A deployment that cannot reach consensus is refused, and nothing
/// changes. Otherwise the first failure ends the start; without one, the
/// work of every node whose dependencies are ready goes out, one node with
/// each step; and once nothing more can go out, the step is that of
/// finalization. The deployment is handed over whole, when every service is
/// ready and finalization has nothing left to wait for.
pub fn dev_fed<'a, V, E>(
    cluster: &'a mut DevJitFed<V, E>,
    fed_size: usize,
    offline_nodes: usize,
    now: u128,
) -> (res: Result<Poll<'a, (DevFed<&'a V>, u128), E>, StartupError>)
    requires
        old(cluster).wf(),
    ensures
        final(cluster).wf(),
        !reaches_consensus(fed_size as int, offline_nodes as int) ==> final(cluster)@ == old(
            cluster,
        )@ && res == Err::<Poll<(DevFed<&V>, u128), E>, StartupError>(
            StartupError::Config(ConfigError { offline_nodes }),
        ),
        reaches_consensus(fed_size as int, offline_nodes as int) ==> final(cluster)@ == old(
            cluster,
        )@.start_all().0 && started(res, final(cluster)@, old(cluster)@.start_all().1, now),
{
    match check_threshold(fed_size, offline_nodes) {
        Err(e) => {
            return Err(StartupError::Config(e));
        },
        Ok(()) => {},
    }
    proof {
        lemma_start_all(cluster@);
    }
    let progress = cluster.start_all();
    cluster.deliver(progress, now)
}

} // verus!
