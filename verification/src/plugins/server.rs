//! What a server does on its tick with what its background tasks have
//! reported: one function for each kind of report, on the table of named
//! server connections.

use vstd::prelude::*;
use crate::NetworkSide;
use crate::connections::{
    name_views,
    start_all,
    startable,
    startable_names,
    Connection,
    Connections,
    ConnectionsType,
    Lifecycle,
    ServerConnectionType,
    ServerConnections,
};
use crate::connections::tcp::connection::{SocketAddress, TcpConnection};
use crate::connections::tcp::server::is_accepted_peer;
use crate::identifiers::is_random_identifier;
use crate::plugins::replication::NewClientsToReplicate;
use crate::plugins::{ClientConnected, ClientDiconnected, ConnectedMessage};
use crate::systems::messaging::{dispatched, Dispatch, DropReason, MessageRegistry};

verus! {

/// Starts every server connection that a start is legal for, and returns
/// the names of those whose background task is to be launched now.
pub fn start_connections(server_connections: &mut ServerConnections) -> (launched: Vec<String>)
    requires
        old(server_connections).wf(),
    ensures
        final(server_connections).wf(),
        final(server_connections).0.names == old(server_connections).0.names,
        final(server_connections).0.values@.len() == old(server_connections).0.values@.len(),
        forall|i: int|
            0 <= i < old(server_connections).0.values@.len() ==> {
                let before = old(server_connections).0.values@[i];
                let after = #[trigger] final(server_connections).0.values@[i];
                &&& after.same_but_lifecycle(&before)
                &&& after.lifecycle() == (if startable(before.lifecycle(), before.torn_down()) {
                    Lifecycle::Starting
                } else {
                    before.lifecycle()
                })
            },
        name_views(launched@) == startable_names(
            old(server_connections).0.names@,
            old(server_connections).0.values@,
        ),
{
    start_all(&mut server_connections.0)
}

/// A bind loop has announced its listener: the connection known by `name`
/// becomes `Active` if it was `Starting`. The result says whether it did;
/// where it did not, the listener is stale and is to be dropped.
pub fn check_connection_up(server_connections: &mut ServerConnections, name: &String) -> (accepted:
    bool)
    requires
        old(server_connections).wf(),
    ensures
        final(server_connections).wf(),
        old(server_connections).0.same_but(&final(server_connections).0, name@),
        accepted == (old(server_connections).0.contains(name@)
            && old(server_connections).0.value(name@).tcp().lifecycle == Lifecycle::Starting),
        old(server_connections).0.contains(name@) ==> ({
            let before = old(server_connections).0.value(name@).tcp();
            let after = final(server_connections).0.value(name@).tcp();
            &&& after.same_but_lifecycle(&before)
            &&& after.lifecycle == (if accepted {
                Lifecycle::Active
            } else {
                before.lifecycle
            })
        }),
{
    match server_connections.0.find(name) {
        Some(at) => {
            let accepted = match &mut server_connections.0.values[at] {
                ServerConnectionType::Tcp(connection) => connection.connection_up(),
            };
            proof {
                server_connections.0.lemma_position(name@, at as int);
            }
            accepted
        },
        None => false,
    }
}

/// An accept loop has signalled that its listener is down: the connection
/// known by `name` is cancelled, and is `Idle` again, without peers, ready
/// for a new start. The result says whether there is such a connection.
pub fn restart_connection(server_connections: &mut ServerConnections, name: &String) -> (cancelled:
    bool)
    requires
        old(server_connections).wf(),
    ensures
        final(server_connections).wf(),
        old(server_connections).0.same_but(&final(server_connections).0, name@),
        cancelled == old(server_connections).0.contains(name@),
        cancelled ==> ({
            let before = old(server_connections).0.value(name@).tcp();
            let after = final(server_connections).0.value(name@).tcp();
            &&& after.lifecycle == Lifecycle::Idle
            &&& after.torn_down == before.torn_down
            &&& after.settings == before.settings
            &&& after.name == before.name
            &&& after.connections@ == Map::<u128, TcpConnection>::empty()
        }),
{
    match server_connections.0.find(name) {
        Some(at) => {
            match &mut server_connections.0.values[at] {
                ServerConnectionType::Tcp(connection) => connection.cancel_connection(),
            };
            proof {
                server_connections.0.lemma_position(name@, at as int);
            }
            true
        },
        None => false,
    }
}

/// What a server does once it has taken a peer in: the event to raise, and
/// the "connected" message to send to the peer before anything else.
pub struct Accepted {
    pub event: ClientConnected,
    pub announcement: ConnectedMessage,
}

/// An accept loop has handed off a socket from `address`: the connection
/// known by `name` takes it into its table of peers under a fresh random
/// identifier. The event names that identifier, the announcement carries it
/// to the new peer, and the peer is put among those that wait for the
/// current state, where such a list is kept. `None` exactly when there is
/// no connection of that name; nothing changes then.
pub fn check_clients_connected(
    server_connections: &mut ServerConnections,
    name: &String,
    address: SocketAddress,
    new_clients_to_replicate: Option<&mut NewClientsToReplicate>,
) -> (accepted: Option<Accepted>)
    requires
        old(server_connections).wf(),
    ensures
        final(server_connections).wf(),
        old(server_connections).0.same_but(&final(server_connections).0, name@),
        accepted is Some == old(server_connections).0.contains(name@),
        accepted matches Some(taken) ==> ({
            let before = old(server_connections).0.value(name@).tcp();
            let after = final(server_connections).0.value(name@).tcp();
            let id = taken.event.0;
            &&& taken.event.1 == ConnectionsType::Tcp
            &&& taken.event.2@ == name@
            &&& taken.announcement.uuid == id
            &&& is_random_identifier(id)
            &&& after.connections@.dom() == before.connections@.dom().insert(id)
            &&& is_accepted_peer(after.connections@[id], id, before.name, before.settings, address)
            &&& forall|other: u128|
                other != id && before.connections@.contains_key(other)
                    ==> after.connections@[other] == before.connections@[other]
            &&& after.settings == before.settings
            &&& after.name == before.name
            &&& after.lifecycle == before.lifecycle
            &&& after.torn_down == before.torn_down
        }),
        new_clients_to_replicate matches Some(waiting) ==> final(waiting).0@ == (match accepted {
            Some(taken) => waiting.0@.push(taken.event.0),
            None => waiting.0@,
        }),
{
    match server_connections.0.find(name) {
        Some(at) => {
            let id = match &mut server_connections.0.values[at] {
                ServerConnectionType::Tcp(connection) => connection.client_connected(address),
            };
            proof {
                server_connections.0.lemma_position(name@, at as int);
            }
            match new_clients_to_replicate {
                Some(waiting) => {
                    waiting.push(id);
                },
                None => {},
            }
            Some(
                Accepted {
                    event: ClientConnected(id, ConnectionsType::Tcp, name.clone()),
                    announcement: ConnectedMessage { uuid: id },
                },
            )
        },
        None => None,
    }
}

/// The down-signal of the peer known by `uuid` was observed: the connection
/// known by `name` removes the peer from its table. `None` exactly when
/// there is no such connection or it holds no such peer; nothing changes
/// then.
pub fn check_client_connections_down(
    server_connections: &mut ServerConnections,
    name: &String,
    uuid: u128,
) -> (event: Option<ClientDiconnected>)
    requires
        old(server_connections).wf(),
    ensures
        final(server_connections).wf(),
        old(server_connections).0.same_but(&final(server_connections).0, name@),
        event is Some == (old(server_connections).0.contains(name@)
            && old(server_connections).0.value(name@).tcp().connections@.contains_key(uuid)),
        event matches Some(gone) ==> gone.0 == uuid && gone.1 == ConnectionsType::Tcp && gone.2@
            == name@,
        old(server_connections).0.contains(name@) ==> ({
            let before = old(server_connections).0.value(name@).tcp();
            let after = final(server_connections).0.value(name@).tcp();
            &&& after.connections@ == before.connections@.remove(uuid)
            &&& after.settings == before.settings
            &&& after.name == before.name
            &&& after.lifecycle == before.lifecycle
            &&& after.torn_down == before.torn_down
        }),
{
    match server_connections.0.find(name) {
        Some(at) => {
            let removed = match &mut server_connections.0.values[at] {
                ServerConnectionType::Tcp(connection) => connection.client_down(uuid),
            };
            proof {
                server_connections.0.lemma_position(name@, at as int);
            }
            if removed {
                Some(ClientDiconnected(uuid, ConnectionsType::Tcp, name.clone()))
            } else {
                None
            }
        },
        None => None,
    }
}

/// Attaches the read loop of the peer known by `uuid` of the connection
/// known by `name`, unless it has one. The result says whether the loop is
/// to be started now.
pub fn start_listening_clients(
    server_connections: &mut ServerConnections,
    name: &String,
    uuid: u128,
) -> (attach: bool)
    requires
        old(server_connections).wf(),
    ensures
        final(server_connections).wf(),
        old(server_connections).0.same_but(&final(server_connections).0, name@),
        attach == (old(server_connections).0.contains(name@) && old(server_connections).0.value(
            name@,
        ).tcp().connections@.contains_key(uuid) && !old(server_connections).0.value(
            name@,
        ).tcp().connections@[uuid].listening),
        old(server_connections).0.contains(name@) ==> ({
            let before = old(server_connections).0.value(name@).tcp();
            let after = final(server_connections).0.value(name@).tcp();
            &&& after.connections@.dom() == before.connections@.dom()
            &&& before.connections@.contains_key(uuid) ==> after.connections@[uuid].listening
                && after.connections@[uuid].same_but_listening(before.connections@[uuid])
            &&& forall|other: u128|
                other != uuid && before.connections@.contains_key(other)
                    ==> after.connections@[other] == before.connections@[other]
            &&& after.settings == before.settings
            &&& after.name == before.name
            &&& after.lifecycle == before.lifecycle
            &&& after.torn_down == before.torn_down
        }),
{
    match server_connections.0.find(name) {
        Some(at) => {
            let attach = match &mut server_connections.0.values[at] {
                ServerConnectionType::Tcp(connection) => connection.start_listening(uuid),
            };
            proof {
                server_connections.0.lemma_position(name@, at as int);
            }
            attach
        },
        None => false,
    }
}

/// What becomes of a payload that the read loop of the peer known by
/// `uuid` of the connection known by `name` has delivered, once it was
/// decoded to a message of type `decoded`, or could not be decoded
/// (`None`). A payload from a peer that is in no table is dropped; any
/// other is dispatched as a server dispatches, with the peer as its
/// sender.
pub fn check_clients_messages(
    server_connections: &ServerConnections,
    registry: &MessageRegistry,
    name: &String,
    uuid: u128,
    decoded: Option<u64>,
) -> (outcome: Dispatch)
    requires
        server_connections.wf(),
    ensures
        outcome == (if server_connections.0.contains(name@) && server_connections.0.value(
            name@,
        ).tcp().connections@.contains_key(uuid) {
            dispatched(registry@, decoded, NetworkSide::Server, Some(uuid))
        } else {
            Dispatch::Dropped(DropReason::UnknownSender)
        }),
{
    let known = match server_connections.0.find(name) {
        Some(at) => match &server_connections.0.values[at] {
            ServerConnectionType::Tcp(connection) => connection.is_connected(uuid),
        },
        None => false,
    };
    if known {
        registry.dispatch(decoded, &NetworkSide::Server, Some(uuid))
    } else {
        Dispatch::Dropped(DropReason::UnknownSender)
    }
}

} // verus!
