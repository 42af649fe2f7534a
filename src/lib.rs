//! A one-sided RDMA frame-streaming protocol: the registered memory region,
//! the control-plane exchange of endpoint descriptors, the queue pair's state
//! order and completion matching, and the producer and consumer ends of the
//! transfer loop. Device access, sockets, files and pacing are left to the
//! caller, which performs what these types decide.
use vstd::prelude::*;

pub mod codec;
pub mod descriptor;
pub mod engine;
pub mod error;
pub mod handshake;
pub mod region;
pub mod transfer;

verus! {

} // verus!
