//! The fixed dependency graph of the deployment.
//!
//! A node's dependencies are the nodes its producer asks for, in the order
//! in which it asks. Every dependency stands before its dependent in the
//! numbering of the nodes, so the graph has no cycle.

use vstd::prelude::*;

verus! {

/// The nodes of the deployment.
#[derive(Clone, Copy, Debug, PartialEq, Eq, Hash, Structural)]
pub enum NodeId {
    /// The base chain daemon.
    Bitcoind,
    /// The first payment node.
    Cln,
    /// The second payment node.
    Lnd,
    /// The first chain indexer.
    Electrs,
    /// The second chain indexer.
    Esplora,
    /// The consensus federation, degraded as configured.
    Fed,
    /// The gateway bound to `Cln`.
    GwCln,
    /// The gateway bound to `Lnd`.
    GwLnd,
    /// Marker: `GwCln` has joined the federation.
    GwClnRegistered,
    /// Marker: `GwLnd` has joined the federation.
    GwLndRegistered,
    /// Marker: a payment channel is open between the two payment nodes.
    ChannelOpened,
    /// Marker: the federation has closed its first consensus round.
    FedEpochGenerated,
    /// Marker: the internal client has joined the federation.
    FedClientJoined,
}

/// How many nodes the deployment has.
pub const NODE_COUNT: usize = 13;

/// How many blocks are mined, and waited for, to close the federation's
/// first consensus round: the work of `FedEpochGenerated`.
pub const FIRST_EPOCH_BLOCKS: u64 = 10;

impl NodeId {
    /// The node's place in the numbering, from 0.
    pub open spec fn spec_index(self) -> nat {
        match self {
            NodeId::Bitcoind => 0,
            NodeId::Cln => 1,
            NodeId::Lnd => 2,
            NodeId::Electrs => 3,
            NodeId::Esplora => 4,
            NodeId::Fed => 5,
            NodeId::GwCln => 6,
            NodeId::GwLnd => 7,
            NodeId::GwClnRegistered => 8,
            NodeId::GwLndRegistered => 9,
            NodeId::ChannelOpened => 10,
            NodeId::FedEpochGenerated => 11,
            NodeId::FedClientJoined => 12,
        }
    }

    /// The node at place `i`; past the last place, the last node.
    pub open spec fn spec_from_index(i: nat) -> NodeId {
        if i == 0 {
            NodeId::Bitcoind
        } else if i == 1 {
            NodeId::Cln
        } else if i == 2 {
            NodeId::Lnd
        } else if i == 3 {
            NodeId::Electrs
        } else if i == 4 {
            NodeId::Esplora
        } else if i == 5 {
            NodeId::Fed
        } else if i == 6 {
            NodeId::GwCln
        } else if i == 7 {
            NodeId::GwLnd
        } else if i == 8 {
            NodeId::GwClnRegistered
        } else if i == 9 {
            NodeId::GwLndRegistered
        } else if i == 10 {
            NodeId::ChannelOpened
        } else if i == 11 {
            NodeId::FedEpochGenerated
        } else {
            NodeId::FedClientJoined
        }
    }

    /// The nodes that this node's producer asks for, in its order.
    pub open spec fn spec_dependencies(self) -> Seq<NodeId> {
        match self {
            NodeId::Bitcoind => seq![],
            NodeId::Cln => seq![NodeId::Bitcoind],
            NodeId::Lnd => seq![NodeId::Bitcoind],
            NodeId::Electrs => seq![NodeId::Bitcoind],
            NodeId::Esplora => seq![NodeId::Bitcoind],
            NodeId::Fed => seq![NodeId::Bitcoind],
            NodeId::GwCln => seq![NodeId::Cln],
            NodeId::GwLnd => seq![NodeId::Lnd],
            NodeId::GwClnRegistered => seq![NodeId::GwCln, NodeId::Fed],
            NodeId::GwLndRegistered => seq![NodeId::GwLnd, NodeId::Fed],
            NodeId::ChannelOpened => seq![NodeId::Bitcoind, NodeId::Lnd, NodeId::Cln],
            NodeId::FedEpochGenerated => seq![NodeId::Fed],
            NodeId::FedClientJoined => seq![NodeId::Fed],
        }
    }

    /// The node's place in the numbering.
    pub fn index(self) -> (i: usize)
        ensures
            i == self.spec_index(),
            i < NODE_COUNT,
    {
        match self {
            NodeId::Bitcoind => 0,
            NodeId::Cln => 1,
            NodeId::Lnd => 2,
            NodeId::Electrs => 3,
            NodeId::Esplora => 4,
            NodeId::Fed => 5,
            NodeId::GwCln => 6,
            NodeId::GwLnd => 7,
            NodeId::GwClnRegistered => 8,
            NodeId::GwLndRegistered => 9,
            NodeId::ChannelOpened => 10,
            NodeId::FedEpochGenerated => 11,
            NodeId::FedClientJoined => 12,
        }
    }

    /// The node at place `i`, if there is one.
    pub fn from_index(i: usize) -> (id: Option<NodeId>)
        ensures
            id.is_some() <==> i < NODE_COUNT,
            id.is_some() ==> id == Some(NodeId::spec_from_index(i as nat)) && id.unwrap().spec_index()
                == i,
    {
        if i == 0 {
            Some(NodeId::Bitcoind)
        } else if i == 1 {
            Some(NodeId::Cln)
        } else if i == 2 {
            Some(NodeId::Lnd)
        } else if i == 3 {
            Some(NodeId::Electrs)
        } else if i == 4 {
            Some(NodeId::Esplora)
        } else if i == 5 {
            Some(NodeId::Fed)
        } else if i == 6 {
            Some(NodeId::GwCln)
        } else if i == 7 {
            Some(NodeId::GwLnd)
        } else if i == 8 {
            Some(NodeId::GwClnRegistered)
        } else if i == 9 {
            Some(NodeId::GwLndRegistered)
        } else if i == 10 {
            Some(NodeId::ChannelOpened)
        } else if i == 11 {
            Some(NodeId::FedEpochGenerated)
        } else if i == 12 {
            Some(NodeId::FedClientJoined)
        } else {
            None
        }
    }

    /// The nodes that this node's producer asks for, in its order.
    pub fn dependencies(self) -> (deps: Vec<NodeId>)
        ensures
            deps@ == self.spec_dependencies(),
    {
        let deps = match self {
            NodeId::Bitcoind => Vec::new(),
            NodeId::Cln => vec![NodeId::Bitcoind],
            NodeId::Lnd => vec![NodeId::Bitcoind],
            NodeId::Electrs => vec![NodeId::Bitcoind],
            NodeId::Esplora => vec![NodeId::Bitcoind],
            NodeId::Fed => vec![NodeId::Bitcoind],
            NodeId::GwCln => vec![NodeId::Cln],
            NodeId::GwLnd => vec![NodeId::Lnd],
            NodeId::GwClnRegistered => vec![NodeId::GwCln, NodeId::Fed],
            NodeId::GwLndRegistered => vec![NodeId::GwLnd, NodeId::Fed],
            NodeId::ChannelOpened => vec![NodeId::Bitcoind, NodeId::Lnd, NodeId::Cln],
            NodeId::FedEpochGenerated => vec![NodeId::Fed],
            NodeId::FedClientJoined => vec![NodeId::Fed],
        };
        assert(deps@ =~= self.spec_dependencies());
        deps
    }

    /// `self` asks for `other` directly.
    pub open spec fn depends_on(self, other: NodeId) -> bool {
        self.spec_dependencies().contains(other)
    }

    /// `self` is `other`, or asks for it through any number of producers.
    pub open spec fn reaches(self, other: NodeId) -> bool
        decreases self.spec_index(), self.spec_dependencies().len() + 1,
    {
        self == other || self.reaches_from(0, other)
    }

    /// One of the dependencies of `self` from place `k` on reaches `other`.
    pub open spec fn reaches_from(self, k: nat, other: NodeId) -> bool
        decreases self.spec_index(), self.spec_dependencies().len() - k,
    {
        if k >= self.spec_dependencies().len() {
            false
        } else {
            (self.spec_dependencies()[k as int].spec_index() < self.spec_index()
                && self.spec_dependencies()[k as int].reaches(other)) || self.reaches_from(
                k + 1,
                other,
            )
        }
    }
}

/// Every dependency stands before its dependent: the graph is acyclic.
pub proof fn lemma_dependencies_come_first(id: NodeId, k: int)
    requires
        0 <= k < id.spec_dependencies().len(),
    ensures
        id.spec_dependencies()[k].spec_index() < id.spec_index(),
{
}

/// The numbering is a bijection between the nodes and `0..NODE_COUNT`.
pub proof fn lemma_index_is_a_bijection(id: NodeId, i: nat)
    ensures
        id.spec_index() < NODE_COUNT,
        NodeId::spec_from_index(id.spec_index()) == id,
        i < NODE_COUNT ==> NodeId::spec_from_index(i).spec_index() == i,
{
}

/// Every node reaches itself.
pub proof fn lemma_reaches_itself(id: NodeId)
    ensures
        id.reaches(id),
{
}

/// What the dependency at place `k` reaches is reached from any place up to `k`.
pub proof fn lemma_reaches_from_place(id: NodeId, from: nat, k: int, other: NodeId)
    requires
        from <= k < id.spec_dependencies().len(),
        id.spec_dependencies()[k].reaches(other),
    ensures
        id.reaches_from(from, other),
        from == 0 ==> id.reaches(other),
    decreases k - from,
{
    lemma_dependencies_come_first(id, k);
    if from < k {
        lemma_reaches_from_place(id, from + 1, k, other);
    }
}

/// Where `id` reaches `other` through its dependencies from place `k` on,
/// one of those dependencies reaches `other`.
pub proof fn lemma_reaches_through(id: NodeId, k: nat, other: NodeId) -> (j: int)
    requires
        id.reaches_from(k, other),
    ensures
        k <= j < id.spec_dependencies().len(),
        id.spec_dependencies()[j].spec_index() < id.spec_index(),
        id.spec_dependencies()[j].reaches(other),
    decreases id.spec_dependencies().len() - k,
{
    let deps = id.spec_dependencies();
    if deps[k as int].spec_index() < id.spec_index() && deps[k as int].reaches(other) {
        k as int
    } else {
        lemma_reaches_through(id, k + 1, other)
    }
}

/// Every node reaches the base chain daemon.
pub proof fn lemma_all_reach_the_daemon(id: NodeId)
    ensures
        id.reaches(NodeId::Bitcoind),
        id != NodeId::Bitcoind ==> id.spec_dependencies().len() > 0,
    decreases id.spec_index(),
{
    if id != NodeId::Bitcoind {
        lemma_dependencies_come_first(id, 0);
        lemma_all_reach_the_daemon(id.spec_dependencies()[0]);
        lemma_reaches_from_place(id, 0, 0, NodeId::Bitcoind);
    }
}

} // verus!
