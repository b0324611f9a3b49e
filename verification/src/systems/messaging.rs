//! The message registry and dispatch: which message types a process knows,
//! and what becomes of a payload once it has been decoded, or could not be.

use vstd::prelude::*;
use std::collections::HashMap;
use crate::NetworkSide;
use crate::connections::ConnectionsType;

verus! {

/// A message type that can travel over a connection. The identifier names
/// the type within the process: every message of the type gives the same
/// one, and no two types share one.
pub trait MessageTrait {
    /// The identifier of the type of this message.
    fn type_identifier(&self) -> u64;
}

/// The notification that a client raises for a message from its server.
pub struct MessageReceivedFromServer<T: MessageTrait> {
    pub message: T,
    pub message_type: ConnectionsType,
    pub connection_name: String,
}

/// The notification that a server raises for a message from one of its
/// clients.
pub struct MessageReceivedFromClient<T: MessageTrait> {
    pub message: T,
    pub message_type: ConnectionsType,
    pub sender: Option<u128>,
    pub connection_name: String,
}

/// The two kinds of notification, one for each role.
#[derive(PartialEq, Eq, Structural, Debug, Clone, Copy)]
pub enum EventSurface {
    ReceivedFromServer,
    ReceivedFromClient,
}

/// What a registration came to: the slot of the type's delivery callback in
/// the host's table of callbacks, whether the type is new to the registry,
/// and the kind of notification that the callback raises in this role.
#[derive(PartialEq, Eq, Structural, Debug, Clone, Copy)]
pub struct Registration {
    pub slot: usize,
    pub fresh: bool,
    pub surface: EventSurface,
}

/// Why a payload was dropped.
#[derive(PartialEq, Eq, Structural, Debug, Clone, Copy)]
pub enum DropReason {
    /// The payload could not be decoded.
    Undecodable,
    /// The payload was decoded, but its type was never registered.
    Unregistered,
    /// The payload came from a peer that is not in the table of peers.
    UnknownSender,
}

/// What becomes of a payload.
#[derive(PartialEq, Eq, Structural, Debug, Clone, Copy)]
pub enum Dispatch {
    /// The callback in `slot` raises the client's notification for it.
    FromServer { slot: usize },
    /// The callback in `slot` raises the server's notification for it, with
    /// the peer that sent it.
    FromClient { slot: usize, sender: Option<u128> },
    /// It is dropped and logged; the connection stays as it is.
    Dropped(DropReason),
}

/// The message types that a process has registered, each with the slot of
/// its delivery callback.
pub struct MessageRegistry {
    pub dispatchers: HashMap<u64, usize>,
}

/// The notification that a process of role `network_side` raises.
pub open spec fn surface_of(network_side: NetworkSide) -> EventSurface {
    match network_side {
        NetworkSide::Client => EventSurface::ReceivedFromServer,
        NetworkSide::Server => EventSurface::ReceivedFromClient,
    }
}

/// The registry after a registration of `type_identifier`: a type that is
/// there already keeps its slot; a new one gets the next free slot.
pub open spec fn registered(slots: Map<u64, usize>, type_identifier: u64) -> Map<u64, usize> {
    if slots.contains_key(type_identifier) {
        slots
    } else {
        slots.insert(type_identifier, slots.len() as usize)
    }
}

/// The registry after `times` registrations of `type_identifier` in a row.
pub open spec fn registered_times(slots: Map<u64, usize>, type_identifier: u64, times: nat) -> Map<
    u64,
    usize,
>
    decreases times,
{
    if times == 0 {
        slots
    } else {
        registered_times(registered(slots, type_identifier), type_identifier, (times - 1) as nat)
    }
}

/// What becomes of a payload that was decoded to a message of type
/// `decoded`, or could not be decoded (`None`), in a process of role
/// `network_side` that got it from `sender`.
pub open spec fn dispatched(
    slots: Map<u64, usize>,
    decoded: Option<u64>,
    network_side: NetworkSide,
    sender: Option<u128>,
) -> Dispatch {
    match decoded {
        None => Dispatch::Dropped(DropReason::Undecodable),
        Some(type_identifier) => if !slots.contains_key(type_identifier) {
            Dispatch::Dropped(DropReason::Unregistered)
        } else {
            match network_side {
                NetworkSide::Client => Dispatch::FromServer { slot: slots[type_identifier] },
                NetworkSide::Server => Dispatch::FromClient { slot: slots[type_identifier], sender },
            }
        },
    }
}

/// Registering a type again changes nothing, however often it is done.
pub proof fn lemma_register_idempotent(slots: Map<u64, usize>, type_identifier: u64, times: nat)
    requires
        times >= 1,
    ensures
        registered(slots, type_identifier).contains_key(type_identifier),
        registered_times(slots, type_identifier, times) == registered(slots, type_identifier),
    decreases times,
{
    if times > 1 {
        lemma_register_idempotent(slots, type_identifier, (times - 1) as nat);
        assert(registered_times(slots, type_identifier, times) == registered_times(
            registered(slots, type_identifier),
            type_identifier,
            (times - 1) as nat,
        ));
        lemma_register_idempotent(
            registered(slots, type_identifier),
            type_identifier,
            (times - 1) as nat,
        );
    } else {
        assert(registered_times(registered(slots, type_identifier), type_identifier, 0)
            == registered(slots, type_identifier));
    }
}

/// A message of a type that was registered, once or many times, goes to
/// exactly one delivery callback: the one in the slot that the first
/// registration gave the type.
pub proof fn lemma_one_callback(
    slots: Map<u64, usize>,
    type_identifier: u64,
    times: nat,
    network_side: NetworkSide,
    sender: Option<u128>,
)
    requires
        times >= 1,
    ensures
        ({
            let after = registered_times(slots, type_identifier, times);
            let slot = registered(slots, type_identifier)[type_identifier];
            dispatched(after, Some(type_identifier), network_side, sender) == (match network_side {
                NetworkSide::Client => Dispatch::FromServer { slot },
                NetworkSide::Server => Dispatch::FromClient { slot, sender },
            })
        }),
{
    lemma_register_idempotent(slots, type_identifier, times);
}

impl View for MessageRegistry {
    type V = Map<u64, usize>;

    open spec fn view(&self) -> Map<u64, usize> {
        self.dispatchers@
    }
}

impl MessageRegistry {
    /// The slots in use are the first ones, and no two types share a slot.
    pub open spec fn wf(&self) -> bool {
        &&& self@.dom().finite()
        &&& forall|t: u64| self@.contains_key(t) ==> (#[trigger] self@[t]) < self@.len()
        &&& forall|s: u64, t: u64|
            self@.contains_key(s) && self@.contains_key(t) && s != t ==> self@[s] != self@[t]
    }

    /// A registry that knows no type.
    pub fn new() -> (registry: MessageRegistry)
        ensures
            registry.wf(),
            registry@ == Map::<u64, usize>::empty(),
    {
        MessageRegistry { dispatchers: HashMap::new() }
    }

    /// Whether the type is registered.
    pub fn is_registered(&self, type_identifier: u64) -> (known: bool)
        ensures
            known == self@.contains_key(type_identifier),
    {
        broadcast use vstd::std_specs::hash::group_hash_axioms;

        self.dispatchers.contains_key(&type_identifier)
    }

    /// What becomes of a payload that was decoded to a message of type
    /// `decoded`, or could not be decoded (`None`).
    pub fn dispatch(
        &self,
        decoded: Option<u64>,
        network_side: &NetworkSide,
        sender: Option<u128>,
    ) -> (outcome: Dispatch)
        ensures
            outcome == dispatched(self@, decoded, *network_side, sender),
    {
        broadcast use vstd::std_specs::hash::group_hash_axioms;

        match decoded {
            None => Dispatch::Dropped(DropReason::Undecodable),
            Some(type_identifier) => match self.dispatchers.get(&type_identifier) {
                None => Dispatch::Dropped(DropReason::Unregistered),
                Some(slot) => match network_side {
                    NetworkSide::Client => Dispatch::FromServer { slot: *slot },
                    NetworkSide::Server => Dispatch::FromClient { slot: *slot, sender },
                },
            },
        }
    }

    /// What becomes of a message that was decoded: its type is asked of the
    /// message, and the rest is as `dispatch` says for that type.
    pub fn dispatch_message<T: MessageTrait>(
        &self,
        message: &T,
        network_side: &NetworkSide,
        sender: Option<u128>,
    ) -> (outcome: Dispatch)
        ensures
            exists|type_identifier: u64|
                outcome == dispatched(self@, Some(type_identifier), *network_side, sender),
    {
        let type_identifier = message.type_identifier();
        self.dispatch(Some(type_identifier), network_side, sender)
    }
}

/// Registers a message type in a process of role `network_side`. A type
/// that is registered already keeps its callback, and the registry stays as
/// it is.
pub fn register_message_type(
    registry: &mut MessageRegistry,
    type_identifier: u64,
    network_side: &NetworkSide,
) -> (registration: Registration)
    requires
        old(registry).wf(),
    ensures
        final(registry).wf(),
        final(registry)@ == registered(old(registry)@, type_identifier),
        registration.fresh == !old(registry)@.contains_key(type_identifier),
        registration.slot == final(registry)@[type_identifier],
        registration.surface == surface_of(*network_side),
{
    broadcast use vstd::std_specs::hash::group_hash_axioms;

    let surface = match network_side {
        NetworkSide::Client => EventSurface::ReceivedFromServer,
        NetworkSide::Server => EventSurface::ReceivedFromClient,
    };
    match registry.dispatchers.get(&type_identifier) {
        Some(slot) => Registration { slot: *slot, fresh: false, surface },
        None => {
            let slot = registry.dispatchers.len();
            registry.dispatchers.insert(type_identifier, slot);
            Registration { slot, fresh: true, surface }
        },
    }
}

} // verus!
