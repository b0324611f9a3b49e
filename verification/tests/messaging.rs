use inator::plugins::{ConnectedMessage, CONNECTED_MESSAGE};
use inator::systems::messaging::{
    register_message_type, Dispatch, DropReason, EventSurface, MessageReceivedFromClient,
    MessageReceivedFromServer, MessageRegistry, MessageTrait,
};
use inator::connections::ConnectionsType;
use inator::NetworkSide;

struct Chat {
    text: String,
}

impl MessageTrait for Chat {
    fn type_identifier(&self) -> u64 {
        77
    }
}

#[test]
fn a_type_registered_many_times_has_one_callback() {
    let mut registry = MessageRegistry::new();
    let first = register_message_type(&mut registry, 77, &NetworkSide::Server);
    assert!(first.fresh);
    assert_eq!(first.slot, 0);
    assert_eq!(first.surface, EventSurface::ReceivedFromClient);
    for _ in 0..5 {
        let again = register_message_type(&mut registry, 77, &NetworkSide::Server);
        assert!(!again.fresh);
        assert_eq!(again.slot, 0);
    }
    assert_eq!(registry.dispatchers.len(), 1);
    let other = register_message_type(&mut registry, 78, &NetworkSide::Server);
    assert!(other.fresh);
    assert_eq!(other.slot, 1);
    assert!(!register_message_type(&mut registry, 77, &NetworkSide::Server).fresh);
    assert_eq!(registry.dispatchers.len(), 2);
    assert_eq!(
        registry.dispatch(Some(77), &NetworkSide::Server, Some(9)),
        Dispatch::FromClient { slot: 0, sender: Some(9) }
    );
    assert_eq!(
        registry.dispatch(Some(78), &NetworkSide::Server, Some(9)),
        Dispatch::FromClient { slot: 1, sender: Some(9) }
    );
}

#[test]
fn the_role_decides_the_notification() {
    let mut registry = MessageRegistry::new();
    let registration = register_message_type(&mut registry, 5, &NetworkSide::Client);
    assert_eq!(registration.surface, EventSurface::ReceivedFromServer);
    assert_eq!(
        registry.dispatch(Some(5), &NetworkSide::Client, None),
        Dispatch::FromServer { slot: 0 }
    );
    assert_eq!(
        registry.dispatch(Some(5), &NetworkSide::Client, Some(3)),
        Dispatch::FromServer { slot: 0 }
    );
    assert_eq!(
        registry.dispatch(Some(5), &NetworkSide::Server, None),
        Dispatch::FromClient { slot: 0, sender: None }
    );
}

#[test]
fn what_cannot_be_delivered_is_dropped() {
    let mut registry = MessageRegistry::new();
    assert!(!registry.is_registered(5));
    assert_eq!(
        registry.dispatch(Some(5), &NetworkSide::Client, None),
        Dispatch::Dropped(DropReason::Unregistered)
    );
    assert_eq!(
        registry.dispatch(None, &NetworkSide::Client, None),
        Dispatch::Dropped(DropReason::Undecodable)
    );
    let _ = register_message_type(&mut registry, 5, &NetworkSide::Client);
    assert!(registry.is_registered(5));
    assert_eq!(
        registry.dispatch(None, &NetworkSide::Server, Some(1)),
        Dispatch::Dropped(DropReason::Undecodable)
    );
    assert_eq!(
        registry.dispatch(Some(6), &NetworkSide::Server, Some(1)),
        Dispatch::Dropped(DropReason::Unregistered)
    );
}

#[test]
fn a_message_names_its_own_type() {
    let mut registry = MessageRegistry::new();
    let chat = Chat { text: "hello".to_string() };
    assert_eq!(
        registry.dispatch_message(&chat, &NetworkSide::Server, Some(4)),
        Dispatch::Dropped(DropReason::Unregistered)
    );
    let _ = register_message_type(&mut registry, CONNECTED_MESSAGE, &NetworkSide::Client);
    let _ = register_message_type(&mut registry, 77, &NetworkSide::Server);
    assert_eq!(
        registry.dispatch_message(&chat, &NetworkSide::Server, Some(4)),
        Dispatch::FromClient { slot: 1, sender: Some(4) }
    );
    let connected = ConnectedMessage { uuid: 11 };
    assert_eq!(connected.type_identifier(), CONNECTED_MESSAGE);
    assert_eq!(
        registry.dispatch_message(&connected, &NetworkSide::Client, None),
        Dispatch::FromServer { slot: 0 }
    );
    let from_server = MessageReceivedFromServer {
        message: Chat { text: "hi".to_string() },
        message_type: ConnectionsType::Tcp,
        connection_name: "Lobby".to_string(),
    };
    assert_eq!(from_server.message.text, "hi");
    let from_client = MessageReceivedFromClient {
        message: chat,
        message_type: ConnectionsType::Tcp,
        sender: Some(4),
        connection_name: "Lobby".to_string(),
    };
    assert_eq!(from_client.sender, Some(4));
    assert_eq!(from_client.message.text, "hello");
}
