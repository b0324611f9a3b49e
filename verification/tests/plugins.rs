use inator::connections::tcp::client::ClientTcpSettings;
use inator::connections::tcp::connection::{read_frames, IpAddress, SocketAddress};
use inator::connections::tcp::server::ServerTcpSettings;
use inator::connections::{
    BytesOptions, ClientConnectionType, ClientConnections, Connection, Connections,
    ConnectionsType, Lifecycle, OrderOptions, ServerConnectionType, ServerConnections,
};
use inator::plugins::client::Decoded;
use inator::plugins::replication::NewClientsToReplicate;
use inator::plugins::{client, server, ConnectedMessage, CONNECTED_MESSAGE};
use inator::systems::messaging::{
    register_message_type, Dispatch, DropReason, MessageRegistry,
};
use inator::NetworkSide;

const CHAT: u64 = 77;

fn local(port: u16) -> SocketAddress {
    SocketAddress { address: IpAddress::V4(127, 0, 0, 1), port }
}

fn lobby() -> String {
    "Lobby".to_string()
}

fn server_table() -> ServerConnections {
    let mut servers = ServerConnections::new();
    assert!(servers.new_server_tcp_connection(ServerTcpSettings::default(), "Lobby"));
    servers
}

fn client_table() -> ClientConnections {
    let mut clients = ClientConnections::new();
    assert!(clients.new_client_tcp_connection(ClientTcpSettings::default(), "Lobby"));
    clients
}

fn server_lifecycle(servers: &ServerConnections, at: usize) -> Lifecycle {
    match &servers.0.values[at] {
        ServerConnectionType::Tcp(connection) => connection.lifecycle,
    }
}

fn client_lifecycle(clients: &ClientConnections, at: usize) -> Lifecycle {
    match &clients.0.values[at] {
        ClientConnectionType::Tcp(connection) => connection.lifecycle,
    }
}

fn client_uuid(clients: &ClientConnections, at: usize) -> Option<u128> {
    match &clients.0.values[at] {
        ClientConnectionType::Tcp(connection) => connection.uuid(),
    }
}

#[test]
fn every_startable_connection_is_started_once() {
    let mut servers = server_table();
    assert!(servers.new_server_tcp_connection(ServerTcpSettings::default(), "Arena"));
    assert!(servers.new_server_tcp_connection(ServerTcpSettings::default(), "Gone"));
    match &mut servers.0.values[2] {
        ServerConnectionType::Tcp(connection) => connection.disconnect(),
    }
    assert_eq!(server::start_connections(&mut servers), vec!["Lobby".to_string(), "Arena".to_string()]);
    assert_eq!(server_lifecycle(&servers, 0), Lifecycle::Starting);
    assert_eq!(server_lifecycle(&servers, 1), Lifecycle::Starting);
    assert_eq!(server_lifecycle(&servers, 2), Lifecycle::Stopped);
    assert!(server::start_connections(&mut servers).is_empty());
    assert!(server::check_connection_up(&mut servers, &"Arena".to_string()));
    assert_eq!(server_lifecycle(&servers, 1), Lifecycle::Active);
    assert!(server::restart_connection(&mut servers, &"Arena".to_string()));
    assert_eq!(server_lifecycle(&servers, 1), Lifecycle::Idle);
    assert_eq!(server::start_connections(&mut servers), vec!["Arena".to_string()]);

    let mut clients = client_table();
    assert_eq!(client::start_connections(&mut clients), vec![lobby()]);
    assert!(client::start_connections(&mut clients).is_empty());
    assert_eq!(client_lifecycle(&clients, 0), Lifecycle::Starting);
}

#[test]
fn reports_for_unknown_connections_change_nothing() {
    let mut servers = server_table();
    let nowhere = "Nowhere".to_string();
    assert!(!server::check_connection_up(&mut servers, &nowhere));
    assert!(!server::restart_connection(&mut servers, &nowhere));
    let mut waiting = NewClientsToReplicate::new();
    assert!(server::check_clients_connected(&mut servers, &nowhere, local(1), Some(&mut waiting)).is_none());
    assert!(waiting.0.is_empty());
    assert!(server::check_client_connections_down(&mut servers, &nowhere, 5).is_none());
    assert!(!server::start_listening_clients(&mut servers, &nowhere, 5));
    assert_eq!(server_lifecycle(&servers, 0), Lifecycle::Idle);
    let mut clients = client_table();
    assert!(!client::check_connection_up(&mut clients, &nowhere, local(1)));
    assert!(!client::restart_connection(&mut clients, &nowhere));
    assert_eq!(client_lifecycle(&clients, 0), Lifecycle::Idle);
    assert!(!server::check_connection_up(&mut servers, &lobby()));
    assert!(!client::check_connection_up(&mut clients, &lobby(), local(1)));
}

#[test]
fn a_client_connects_is_named_and_gets_a_message_bit_for_bit() {
    let mut server_registry = MessageRegistry::new();
    let _ = register_message_type(&mut server_registry, CONNECTED_MESSAGE, &NetworkSide::Client);
    let _ = register_message_type(&mut server_registry, CHAT, &NetworkSide::Server);
    let mut client_registry = MessageRegistry::new();
    let _ = register_message_type(&mut client_registry, CONNECTED_MESSAGE, &NetworkSide::Client);
    let chat_slot = register_message_type(&mut client_registry, CHAT, &NetworkSide::Client).slot;

    let mut servers = server_table();
    let mut clients = client_table();
    assert_eq!(server::start_connections(&mut servers), vec![lobby()]);
    assert!(server::check_connection_up(&mut servers, &lobby()));
    assert_eq!(client::start_connections(&mut clients), vec![lobby()]);
    assert!(client::check_connection_up(&mut clients, &lobby(), local(8080)));
    assert_eq!(client_lifecycle(&clients, 0), Lifecycle::Active);
    assert_eq!(client_uuid(&clients, 0), None);

    let mut waiting = NewClientsToReplicate::new();
    let accepted =
        server::check_clients_connected(&mut servers, &lobby(), local(50_000), Some(&mut waiting))
            .expect("the connection is there");
    let id = accepted.event.0;
    assert_eq!(accepted.event.1, ConnectionsType::Tcp);
    assert_eq!(accepted.event.2, "Lobby");
    assert_eq!(accepted.announcement, ConnectedMessage { uuid: id });
    assert_eq!(waiting.0, vec![id]);
    assert_eq!((id >> 76) & 0xf, 4);
    assert!(server::start_listening_clients(&mut servers, &lobby(), id));
    assert!(!server::start_listening_clients(&mut servers, &lobby(), id));

    let announcement = accepted.announcement.uuid.to_be_bytes().to_vec();
    let hello = b"hello, client".to_vec();
    let mut stream = Vec::new();
    let first = servers
        .send_message_to_client("Lobby", &announcement, &id)
        .expect("the connection is there");
    assert_eq!(first.recipients, vec![id]);
    stream.extend(first.wire);
    let second = servers
        .send_message_to_client("Lobby", &hello, &id)
        .expect("the connection is there");
    assert_eq!(second.recipients, vec![id]);
    stream.extend(second.wire);

    let received = read_frames(&stream, &BytesOptions::U32, &OrderOptions::LittleEndian);
    assert_eq!(received, vec![announcement.clone(), hello.clone()]);
    let mut carried = [0u8; 16];
    carried.copy_from_slice(&received[0]);
    let message = ConnectedMessage { uuid: u128::from_be_bytes(carried) };
    assert_eq!(
        client::check_new_messages(&mut clients, &client_registry, &lobby(), Decoded::Connected(message)),
        Dispatch::FromServer { slot: 0 }
    );
    assert_eq!(client_uuid(&clients, 0), Some(id));
    assert_eq!(
        client::check_new_messages(&mut clients, &client_registry, &lobby(), Decoded::Message(CHAT)),
        Dispatch::FromServer { slot: chat_slot }
    );
    assert_eq!(client_uuid(&clients, 0), Some(id));
    assert_eq!(received[1], hello);
}

#[test]
fn client_payloads_that_cannot_be_delivered_are_dropped() {
    let mut registry = MessageRegistry::new();
    let _ = register_message_type(&mut registry, CHAT, &NetworkSide::Client);
    let mut clients = client_table();
    assert_eq!(
        client::check_new_messages(&mut clients, &registry, &lobby(), Decoded::Message(CHAT)),
        Dispatch::Dropped(DropReason::UnknownSender)
    );
    assert_eq!(
        client::check_new_messages(&mut clients, &registry, &"Nowhere".to_string(), Decoded::Message(CHAT)),
        Dispatch::Dropped(DropReason::UnknownSender)
    );
    assert_eq!(client::start_connections(&mut clients), vec![lobby()]);
    assert!(client::check_connection_up(&mut clients, &lobby(), local(8080)));
    assert_eq!(
        client::check_new_messages(&mut clients, &registry, &lobby(), Decoded::Undecodable),
        Dispatch::Dropped(DropReason::Undecodable)
    );
    assert_eq!(
        client::check_new_messages(&mut clients, &registry, &lobby(), Decoded::Message(4)),
        Dispatch::Dropped(DropReason::Unregistered)
    );
    assert_eq!(
        client::check_new_messages(
            &mut clients,
            &registry,
            &lobby(),
            Decoded::Connected(ConnectedMessage { uuid: 3 })
        ),
        Dispatch::Dropped(DropReason::Unregistered)
    );
    assert_eq!(client_uuid(&clients, 0), Some(3));
    assert_eq!(client_lifecycle(&clients, 0), Lifecycle::Active);
}

#[test]
fn server_payloads_are_dispatched_with_their_sender() {
    let mut registry = MessageRegistry::new();
    let slot = register_message_type(&mut registry, CHAT, &NetworkSide::Server).slot;
    let mut servers = server_table();
    let id = server::check_clients_connected(&mut servers, &lobby(), local(50_000), None)
        .expect("the connection is there")
        .event
        .0;
    assert_eq!(
        server::check_clients_messages(&servers, &registry, &lobby(), id, Some(CHAT)),
        Dispatch::FromClient { slot, sender: Some(id) }
    );
    assert_eq!(
        server::check_clients_messages(&servers, &registry, &lobby(), id, Some(5)),
        Dispatch::Dropped(DropReason::Unregistered)
    );
    assert_eq!(
        server::check_clients_messages(&servers, &registry, &lobby(), id, None),
        Dispatch::Dropped(DropReason::Undecodable)
    );
    assert_eq!(
        server::check_clients_messages(&servers, &registry, &lobby(), id ^ 1, Some(CHAT)),
        Dispatch::Dropped(DropReason::UnknownSender)
    );
    assert_eq!(
        server::check_clients_messages(&servers, &registry, &"Nowhere".to_string(), id, Some(CHAT)),
        Dispatch::Dropped(DropReason::UnknownSender)
    );
}

#[test]
fn a_peer_is_removed_when_its_down_signal_is_seen() {
    let mut registry = MessageRegistry::new();
    let _ = register_message_type(&mut registry, CHAT, &NetworkSide::Server);
    let mut servers = server_table();
    let first = server::check_clients_connected(&mut servers, &lobby(), local(50_000), None)
        .expect("the connection is there")
        .event
        .0;
    let second = server::check_clients_connected(&mut servers, &lobby(), local(50_001), None)
        .expect("the connection is there")
        .event
        .0;
    let gone = server::check_client_connections_down(&mut servers, &lobby(), first)
        .expect("the peer was there");
    assert_eq!(gone.0, first);
    assert_eq!(gone.1, ConnectionsType::Tcp);
    assert_eq!(gone.2, "Lobby");
    assert!(server::check_client_connections_down(&mut servers, &lobby(), first).is_none());
    let payload = vec![1u8];
    let out = servers
        .send_message_to_client("Lobby", &payload, &first)
        .expect("the connection is there");
    assert!(out.recipients.is_empty());
    let all = servers.send_for_all_clients(&payload, &lobby()).expect("the connection is there");
    assert_eq!(all.recipients, vec![second]);
    assert_eq!(
        server::check_clients_messages(&servers, &registry, &lobby(), first, Some(CHAT)),
        Dispatch::Dropped(DropReason::UnknownSender)
    );
}

#[test]
fn a_lost_socket_is_followed_by_a_working_restart() {
    let mut clients = client_table();
    assert_eq!(client::start_connections(&mut clients), vec![lobby()]);
    assert!(client::check_connection_up(&mut clients, &lobby(), local(8080)));
    assert!(client::restart_connection(&mut clients, &lobby()));
    assert_eq!(client_lifecycle(&clients, 0), Lifecycle::Idle);
    assert_eq!(client_uuid(&clients, 0), None);
    assert_eq!(client::start_connections(&mut clients), vec![lobby()]);
    assert!(client::check_connection_up(&mut clients, &lobby(), local(8080)));
    assert_eq!(client_lifecycle(&clients, 0), Lifecycle::Active);
    match &clients.0.values[0] {
        ClientConnectionType::Tcp(connection) => {
            let peer = connection.local_tcp_connection.as_ref().expect("a fresh peer");
            assert!(peer.listening);
            assert_eq!(peer.uuid, None);
            assert!(connection.can_start() == false);
        }
    }
}

#[test]
fn it_works() {
    //Testing server and client

    let mut servers = ServerConnections::new();
    assert!(server::start_connections(&mut servers).is_empty());
    assert!(servers.0.names.is_empty());

    let mut clients = ClientConnections::new();
    assert!(client::start_connections(&mut clients).is_empty());
    assert!(clients.0.names.is_empty());
}
