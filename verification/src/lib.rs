//! Transport and state synchronisation for networked simulations: the wire
//! codec, the message registry, the connection state machines, the per-peer
//! transport and the replication engine, as a verified functional core.

use vstd::prelude::*;

pub mod connections;
pub mod identifiers;
pub mod plugins;
pub mod systems;

verus! {

/// The role a process plays on a connection.
#[derive(PartialEq, Eq, Structural, Clone, Copy, Debug)]
pub enum NetworkSide {
    Client,
    Server,
}

/// The sum of two counters.
pub fn add(left: u64, right: u64) -> (sum: u64)
    requires
        left + right <= u64::MAX,
    ensures
        sum == left + right,
{
    left + right
}

} // verus!
