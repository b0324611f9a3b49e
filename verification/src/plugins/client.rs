//! What a client does on its tick with what its background tasks have
//! reported: one function for each kind of report, on the table of named
//! client connections.

use vstd::prelude::*;
use crate::NetworkSide;
use crate::connections::{
    name_views,
    start_all,
    startable,
    startable_names,
    ClientConnectionType,
    ClientConnections,
    Connection,
    Connections,
    Lifecycle,
};
use crate::connections::tcp::connection::SocketAddress;
use crate::plugins::{ConnectedMessage, CONNECTED_MESSAGE};
use crate::systems::messaging::{dispatched, Dispatch, DropReason, MessageRegistry};

verus! {

/// What the client's decoder made of a payload.
#[derive(PartialEq, Eq, Structural, Debug, Clone, Copy)]
pub enum Decoded {
    /// Nothing: the payload could not be decoded.
    Undecodable,
    /// The reserved "connected" message.
    Connected(ConnectedMessage),
    /// A message of the type with this identifier.
    Message(u64),
}

impl Decoded {
    /// The type of the message, if there is one.
    pub open spec fn type_identifier(self) -> Option<u64> {
        match self {
            Decoded::Undecodable => None,
            Decoded::Connected(_) => Some(CONNECTED_MESSAGE),
            Decoded::Message(type_identifier) => Some(type_identifier),
        }
    }
}

/// Starts every client connection that a start is legal for, and returns
/// the names of those whose background task is to be launched now.
pub fn start_connections(client_connections: &mut ClientConnections) -> (launched: Vec<String>)
    requires
        old(client_connections).wf(),
    ensures
        final(client_connections).wf(),
        final(client_connections).0.names == old(client_connections).0.names,
        final(client_connections).0.values@.len() == old(client_connections).0.values@.len(),
        forall|i: int|
            0 <= i < old(client_connections).0.values@.len() ==> {
                let before = old(client_connections).0.values@[i];
                let after = #[trigger] final(client_connections).0.values@[i];
                &&& after.same_but_lifecycle(&before)
                &&& after.lifecycle() == (if startable(before.lifecycle(), before.torn_down()) {
                    Lifecycle::Starting
                } else {
                    before.lifecycle()
                })
            },
        name_views(launched@) == startable_names(
            old(client_connections).0.names@,
            old(client_connections).0.values@,
        ),
{
    start_all(&mut client_connections.0)
}

/// A connect loop has announced a socket to the server at `peer`: the
/// connection known by `name` becomes `Active` if it was `Starting`, and
/// holds a peer for the socket with its read loop attached. The result
/// says whether it did; where it did not, the socket is stale and is to be
/// dropped.
pub fn check_connection_up(
    client_connections: &mut ClientConnections,
    name: &String,
    peer: SocketAddress,
) -> (accepted: bool)
    requires
        old(client_connections).wf(),
    ensures
        final(client_connections).wf(),
        old(client_connections).0.same_but(&final(client_connections).0, name@),
        accepted == (old(client_connections).0.contains(name@)
            && old(client_connections).0.value(name@).tcp().lifecycle == Lifecycle::Starting),
        !accepted && old(client_connections).0.contains(name@)
            ==> final(client_connections).0.value(name@).tcp()
            == old(client_connections).0.value(name@).tcp(),
        accepted ==> ({
            let before = old(client_connections).0.value(name@).tcp();
            let after = final(client_connections).0.value(name@).tcp();
            &&& after.lifecycle == Lifecycle::Active
            &&& after.settings == before.settings
            &&& after.name == before.name
            &&& after.torn_down == before.torn_down
            &&& after.local_tcp_connection matches Some(local) && local.listening
                && local.connection_name == before.name && local.socket_addr == peer
                && local.uuid is None && local.network_side == NetworkSide::Client
                && local.bytes == before.settings.bytes && local.order == before.settings.order
        }),
{
    match client_connections.0.find(name) {
        Some(at) => {
            let accepted = match &mut client_connections.0.values[at] {
                ClientConnectionType::Tcp(connection) => connection.connection_up(peer),
            };
            proof {
                client_connections.0.lemma_position(name@, at as int);
            }
            accepted
        },
        None => false,
    }
}

/// A read loop has signalled that its socket is down: the connection known
/// by `name` is cancelled, and is `Idle` again, without a peer, ready for
/// a new start. The result says whether there is such a connection.
pub fn restart_connection(client_connections: &mut ClientConnections, name: &String) -> (cancelled:
    bool)
    requires
        old(client_connections).wf(),
    ensures
        final(client_connections).wf(),
        old(client_connections).0.same_but(&final(client_connections).0, name@),
        cancelled == old(client_connections).0.contains(name@),
        cancelled ==> ({
            let before = old(client_connections).0.value(name@).tcp();
            let after = final(client_connections).0.value(name@).tcp();
            &&& after.lifecycle == Lifecycle::Idle
            &&& after.torn_down == before.torn_down
            &&& after.settings == before.settings
            &&& after.name == before.name
            &&& after.local_tcp_connection is None
        }),
{
    match client_connections.0.find(name) {
        Some(at) => {
            match &mut client_connections.0.values[at] {
                ClientConnectionType::Tcp(connection) => connection.cancel_connection(),
            };
            proof {
                client_connections.0.lemma_position(name@, at as int);
            }
            true
        },
        None => false,
    }
}

/// What becomes of a payload that the read loop of the connection known
/// by `name` has delivered, once the decoder has made of it what it could.
/// The "connected" message names the client: the peer held is known by the
/// identifier it carries from then on. Any payload is then dispatched as a
/// client dispatches. A payload for a connection that is not in the table,
/// or that holds no peer, is dropped.
pub fn check_new_messages(
    client_connections: &mut ClientConnections,
    registry: &MessageRegistry,
    name: &String,
    decoded: Decoded,
) -> (outcome: Dispatch)
    requires
        old(client_connections).wf(),
    ensures
        final(client_connections).wf(),
        old(client_connections).0.same_but(&final(client_connections).0, name@),
        outcome == (if old(client_connections).0.contains(name@)
            && old(client_connections).0.value(name@).tcp().local_tcp_connection is Some {
            dispatched(
                registry@,
                decoded.type_identifier(),
                NetworkSide::Client,
                final(client_connections).0.value(name@).tcp().local_tcp_connection->0.uuid,
            )
        } else {
            Dispatch::Dropped(DropReason::UnknownSender)
        }),
        old(client_connections).0.contains(name@) ==> ({
            let before = old(client_connections).0.value(name@).tcp();
            let after = final(client_connections).0.value(name@).tcp();
            &&& after.settings == before.settings
            &&& after.name == before.name
            &&& after.lifecycle == before.lifecycle
            &&& after.torn_down == before.torn_down
            &&& after.local_tcp_connection is Some == before.local_tcp_connection is Some
            &&& before.local_tcp_connection matches Some(held) ==> ({
                let local = after.local_tcp_connection->0;
                &&& local.uuid == (match decoded {
                    Decoded::Connected(message) => Some(message.uuid),
                    _ => held.uuid,
                })
                &&& local.connection_name == held.connection_name
                &&& local.socket_addr == held.socket_addr
                &&& local.network_side == held.network_side
                &&& local.bytes == held.bytes
                &&& local.order == held.order
                &&& local.listening == held.listening
            })
        }),
{
    match client_connections.0.find(name) {
        Some(at) => {
            let sender = match &mut client_connections.0.values[at] {
                ClientConnectionType::Tcp(connection) => {
                    let held = match decoded {
                        Decoded::Connected(message) => connection.connected(message.uuid),
                        _ => connection.local_tcp_connection.is_some(),
                    };
                    if held {
                        Some(connection.uuid())
                    } else {
                        None
                    }
                },
            };
            proof {
                client_connections.0.lemma_position(name@, at as int);
            }
            let type_identifier = match decoded {
                Decoded::Undecodable => None,
                Decoded::Connected(_) => Some(CONNECTED_MESSAGE),
                Decoded::Message(type_identifier) => Some(type_identifier),
            };
            match sender {
                Some(uuid) => registry.dispatch(type_identifier, &NetworkSide::Client, uuid),
                None => Dispatch::Dropped(DropReason::UnknownSender),
            }
        },
        None => Dispatch::Dropped(DropReason::UnknownSender),
    }
}

} // verus!
