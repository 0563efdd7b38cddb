//! Channel-topology search and scenario decisions for driving two payment
//! channel nodes against a target node.
//!
//! Everything here is plain computation over values: node I/O (RPC calls,
//! sleeping, advancing the chain) is performed by the caller, which feeds the
//! outcomes back into the state machines and searches of this crate.

pub mod cycle;
pub mod graph;
pub mod node_id;
pub mod payment;
pub mod provision;
pub mod scenario;
