//! The memoized lazy node: a single-assignment cell with four states.

use vstd::prelude::*;

verus! {

/// The two halves of a producer's run.
#[derive(Clone, Copy, Debug, PartialEq, Eq, Structural)]
pub enum Phase {
    /// The producer is waiting for its dependencies.
    Awaiting,
    /// The node's own work has been handed out and has not come back.
    Working,
}

/// The state of a node. It moves from `Unstarted` through `InProgress` to
/// `Ready` or `Failed`, and never back.
#[derive(Debug)]
pub enum Node<T, E> {
    /// Nothing has asked for the node yet.
    Unstarted,
    /// The producer runs.
    InProgress(Phase),
    /// The producer has given its value.
    Ready(T),
    /// The producer has failed.
    Failed(E),
}

impl<T, E> Node<T, E> {
    /// The node has reached `Ready` or `Failed`.
    pub open spec fn is_terminal(self) -> bool {
        self is Ready || self is Failed
    }

    /// The node's own work has been handed out, now or earlier.
    pub open spec fn is_launched(self) -> bool {
        self == Node::<T, E>::InProgress(Phase::Working) || self is Ready
    }

    /// The node's own work is out and has not come back.
    pub open spec fn is_working(self) -> bool {
        self == Node::<T, E>::InProgress(Phase::Working)
    }

    /// A node that nothing has asked for.
    pub fn new() -> (node: Self)
        ensures
            node is Unstarted,
    {
        Node::Unstarted
    }

    /// What the node has resolved to, if it has.
    pub fn outcome(&self) -> (res: Option<Result<&T, &E>>)
        ensures
            res.is_some() <==> self.is_terminal(),
            match *self {
                Node::Ready(v) => res == Some(Ok::<&T, &E>(&v)),
                Node::Failed(e) => res == Some(Err::<&T, &E>(&e)),
                _ => res.is_none(),
            },
    {
        match self {
            Node::Ready(v) => Some(Ok(v)),
            Node::Failed(e) => Some(Err(e)),
            _ => None,
        }
    }
}

} // verus!
