//! Client-side connection management for an RPC framework: load-balancing
//! policies, the child-policy manager that composite policies are built on,
//! and the subchannel and channel-controller state machines.
//!
//! Every function in this crate is verified against its contract. The few
//! calls into other crates go through wrappers whose contracts are stated
//! next to them and are assumed, not proved.

pub mod attributes;
pub mod client;
pub mod error;
pub mod inmemory;
pub mod sequence;
pub mod server;
pub mod service;
