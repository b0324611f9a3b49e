//! What a host wires into its tick: the events of the server and client
//! roles, and the replication engine.

use vstd::prelude::*;
use crate::connections::ConnectionsType;
use crate::systems::messaging::MessageTrait;

pub mod client;
pub mod replication;
pub mod server;

verus! {

/// The type identifier reserved for the "connected" message.
pub const CONNECTED_MESSAGE: u64 = 0;

/// A peer was accepted: its identifier, the transport, and the name of the
/// connection that accepted it.
pub struct ClientConnected(pub u128, pub ConnectionsType, pub String);

/// A peer has gone: its identifier, the transport, and the name of the
/// connection that held it.
pub struct ClientDiconnected(pub u128, pub ConnectionsType, pub String);

/// The reserved message by which a server tells a client, first thing after
/// accepting it, the identifier it is known by.
#[derive(PartialEq, Eq, Structural, Debug, Clone, Copy)]
pub struct ConnectedMessage {
    pub uuid: u128,
}

impl MessageTrait for ConnectedMessage {
    fn type_identifier(&self) -> (id: u64)
        ensures
            id == CONNECTED_MESSAGE,
    {
        CONNECTED_MESSAGE
    }
}

} // verus!
