//! Start-up of a development federation as a lazy, memoized dependency graph.
//!
//! The crate decides; its caller acts. Every function here is a step of a
//! state machine: it takes the cluster as it stands, advances it, and names
//! the one piece of outside work (if any) that has to happen next.

pub mod cluster;
pub mod laws;
pub mod model;
pub mod node;
pub mod threshold;
pub mod topology;
