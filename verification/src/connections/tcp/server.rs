//! The server side of a connection: its settings, the admission limiter and
//! the decisions of its bind and accept loops, and the state machine with
//! the table of live peers that the host drives from its tick.

use vstd::prelude::*;
use std::collections::HashMap;
use vstd::std_specs::iter::IteratorSpec;
use crate::NetworkSide;
use crate::connections::{BytesOptions, Connection, Lifecycle, OrderOptions};
use crate::connections::tcp::client::AttemptAction;
use crate::connections::tcp::connection::{
    frame,
    frame_message,
    IpAddress,
    SocketAddress,
    TcpConnection,
};
use crate::connections::tcp::reader_writer::{fits, representable};
use crate::identifiers::is_random_identifier;

verus! {

/// Where a server listens, how it frames its messages, and how many peers
/// it takes: `max_connections` at a time, or any number where that is 0.
/// When the limit is reached, a new socket is refused at once if
/// `recuse_when_full` is set, and kept waiting for a free slot if not.
#[derive(PartialEq, Eq, Structural, Debug, Clone, Copy)]
pub struct ServerTcpSettings {
    pub address: IpAddress,
    pub port: u16,
    pub bytes: BytesOptions,
    pub order: OrderOptions,
    pub max_connections: usize,
    pub recuse_when_full: bool,
}

/// A server connection as the host's tick sees it.
pub struct ServerTcpConnection {
    pub settings: ServerTcpSettings,
    pub name: String,
    pub lifecycle: Lifecycle,
    pub torn_down: bool,
    pub connections: HashMap<u128, TcpConnection>,
}

/// Counts the peers that hold a slot, against the limit of the settings.
#[derive(PartialEq, Eq, Structural, Debug, Clone, Copy)]
pub struct AdmissionLimiter {
    pub max_connections: usize,
    pub recuse_when_full: bool,
    pub active: usize,
}

/// What the limiter says of a socket that was just accepted.
#[derive(PartialEq, Eq, Structural, Debug, Clone, Copy)]
pub enum Admission {
    /// It has a slot.
    Admitted,
    /// All slots are taken and the policy is to refuse: drop it.
    Refused,
    /// All slots are taken and the policy is to wait: hold it until a slot
    /// is released, then ask again.
    Blocked,
}

/// What the accept loop waited for, and got.
#[derive(PartialEq, Eq, Structural, Debug, Clone, Copy)]
pub enum AcceptEvent {
    /// The cancellation signal won the race against the accept.
    Cancelled,
    /// A socket was accepted.
    Accepted,
    /// The accept ended with an error.
    Failed,
}

/// What the accept loop does after an event.
#[derive(PartialEq, Eq, Structural, Debug, Clone, Copy)]
pub enum AcceptAction {
    /// Hand the socket to the host, and accept the next.
    HandOff,
    /// Drop the socket, and accept the next.
    Reject,
    /// Hold the socket until a slot is released; accept nothing meanwhile.
    Wait,
    /// Emit the down-signal and end.
    SignalDown,
    /// End without a signal.
    Stop,
}

/// A frame and the peers to write it to.
pub struct Outbound {
    pub wire: Vec<u8>,
    pub recipients: Vec<u128>,
}

impl AdmissionLimiter {
    /// The count never passes the limit, and nothing is counted where there
    /// is no limit.
    pub open spec fn wf(self) -> bool {
        self.active <= self.max_connections
    }

    /// Whether every slot is taken.
    pub open spec fn full(self) -> bool {
        self.max_connections > 0 && self.active >= self.max_connections
    }

    /// What the limiter says of the next socket.
    pub open spec fn verdict(self) -> Admission {
        if !self.full() {
            Admission::Admitted
        } else if self.recuse_when_full {
            Admission::Refused
        } else {
            Admission::Blocked
        }
    }

    /// The limiter after it was asked about a socket: an admitted socket
    /// takes a slot where slots are counted.
    pub open spec fn after_acquire(self) -> AdmissionLimiter {
        if self.max_connections > 0 && !self.full() {
            AdmissionLimiter { active: (self.active + 1) as usize, ..self }
        } else {
            self
        }
    }

    /// The limiter after a peer that held a slot has gone.
    pub open spec fn after_release(self) -> AdmissionLimiter {
        if self.active > 0 {
            AdmissionLimiter { active: (self.active - 1) as usize, ..self }
        } else {
            self
        }
    }

    /// The limiter after it was asked about `count` sockets in a row, with
    /// no peer going in between.
    pub open spec fn after_acquires(self, count: nat) -> AdmissionLimiter
        decreases count,
    {
        if count == 0 {
            self
        } else {
            self.after_acquire().after_acquires((count - 1) as nat)
        }
    }

    /// A limiter for the settings given, with every slot free.
    pub fn new(max_connections: usize, recuse_when_full: bool) -> (limiter: AdmissionLimiter)
        ensures
            limiter == (AdmissionLimiter { max_connections, recuse_when_full, active: 0 }),
            limiter.wf(),
    {
        AdmissionLimiter { max_connections, recuse_when_full, active: 0 }
    }

    /// Asks for a slot for a socket that was just accepted.
    pub fn acquire(&mut self) -> (admission: Admission)
        requires
            old(self).wf(),
        ensures
            admission == old(self).verdict(),
            *final(self) == old(self).after_acquire(),
            final(self).wf(),
    {
        if self.max_connections == 0 {
            Admission::Admitted
        } else if self.active < self.max_connections {
            self.active = self.active + 1;
            Admission::Admitted
        } else if self.recuse_when_full {
            Admission::Refused
        } else {
            Admission::Blocked
        }
    }

    /// Gives back the slot of a peer that has disconnected.
    pub fn release(&mut self)
        requires
            old(self).wf(),
        ensures
            *final(self) == old(self).after_release(),
            final(self).wf(),
    {
        if self.active > 0 {
            self.active = self.active - 1;
        }
    }
}

/// The limit holds: of the sockets that a fresh limiter is asked about in a
/// row, as many as the limit are admitted, and from then on every slot is
/// taken, however many more ask.
pub proof fn lemma_limit_holds(max_connections: usize, recuse_when_full: bool, count: nat)
    requires
        max_connections > 0,
    ensures
        ({
            let fresh = AdmissionLimiter { max_connections, recuse_when_full, active: 0 };
            let limiter = fresh.after_acquires(count);
            &&& limiter.wf()
            &&& limiter.max_connections == max_connections
            &&& limiter.recuse_when_full == recuse_when_full
            &&& limiter.active == (if count <= max_connections {
                count
            } else {
                max_connections as nat
            })
        }),
{
    let fresh = AdmissionLimiter { max_connections, recuse_when_full, active: 0 };
    lemma_acquires_from(fresh, count);
}

/// Asking a well-formed limiter about `count` sockets fills it by `count`
/// slots, up to the limit.
pub proof fn lemma_acquires_from(limiter: AdmissionLimiter, count: nat)
    requires
        limiter.wf(),
        limiter.max_connections > 0,
    ensures
        ({
            let after = limiter.after_acquires(count);
            &&& after.wf()
            &&& after.max_connections == limiter.max_connections
            &&& after.recuse_when_full == limiter.recuse_when_full
            &&& after.active == (if limiter.active + count <= limiter.max_connections {
                limiter.active + count
            } else {
                limiter.max_connections as int
            })
        }),
    decreases count,
{
    if count > 0 {
        lemma_acquires_from(limiter.after_acquire(), (count - 1) as nat);
    }
}

/// A full limiter turns the next socket away, by refusing it or by keeping
/// it waiting as the policy says, and admits it as soon as one peer has
/// gone.
pub proof fn lemma_slot_frees(limiter: AdmissionLimiter)
    requires
        limiter.wf(),
        limiter.full(),
    ensures
        limiter.verdict() == (if limiter.recuse_when_full {
            Admission::Refused
        } else {
            Admission::Blocked
        }),
        limiter.after_acquire() == limiter,
        limiter.after_release().verdict() == Admission::Admitted,
        limiter.after_release().after_acquire() == limiter,
{
}

/// The decision of the bind loop after one attempt: a listener is announced
/// unless cancellation was seen meanwhile, in which case it is let go; a
/// failed attempt is repeated without delay for as long as the
/// cancellation flag is down.
pub open spec fn bind_step_spec(bound: bool, dropped: bool) -> AttemptAction {
    if dropped {
        AttemptAction::Abandon
    } else if bound {
        AttemptAction::Announce
    } else {
        AttemptAction::Retry
    }
}

/// The decision of the bind loop after one attempt.
pub fn bind_step(bound: bool, dropped: bool) -> (action: AttemptAction)
    ensures
        action == bind_step_spec(bound, dropped),
{
    if dropped {
        AttemptAction::Abandon
    } else if bound {
        AttemptAction::Announce
    } else {
        AttemptAction::Retry
    }
}

/// What the accept loop does after `event`: cancellation ends it without a
/// signal; any error ends it with the down-signal; an accepted socket is
/// handed off, dropped or kept waiting as the limiter says.
pub open spec fn accept_step_spec(limiter: AdmissionLimiter, event: AcceptEvent) -> AcceptAction {
    match event {
        AcceptEvent::Cancelled => AcceptAction::Stop,
        AcceptEvent::Failed => AcceptAction::SignalDown,
        AcceptEvent::Accepted => match limiter.verdict() {
            Admission::Admitted => AcceptAction::HandOff,
            Admission::Refused => AcceptAction::Reject,
            Admission::Blocked => AcceptAction::Wait,
        },
    }
}

/// Whether the accept loop goes round again after `action`, given the
/// cancellation flag as it stands then.
pub open spec fn accept_goes_on(action: AcceptAction, dropped: bool) -> bool {
    !dropped && action != AcceptAction::Stop && action != AcceptAction::SignalDown
}

/// One turn of the accept loop: what it does after `event`, and whether it
/// goes round again. The limiter counts the socket if it is admitted.
pub fn accept_step(limiter: &mut AdmissionLimiter, event: AcceptEvent, dropped: bool) -> (turn: (
    AcceptAction,
    bool,
))
    requires
        old(limiter).wf(),
    ensures
        turn.0 == accept_step_spec(*old(limiter), event),
        turn.1 == accept_goes_on(turn.0, dropped),
        *final(limiter) == (if event == AcceptEvent::Accepted {
            old(limiter).after_acquire()
        } else {
            *old(limiter)
        }),
        final(limiter).wf(),
{
    let action = match event {
        AcceptEvent::Cancelled => AcceptAction::Stop,
        AcceptEvent::Failed => AcceptAction::SignalDown,
        AcceptEvent::Accepted => match limiter.acquire() {
            Admission::Admitted => AcceptAction::HandOff,
            Admission::Refused => AcceptAction::Reject,
            Admission::Blocked => AcceptAction::Wait,
        },
    };
    let proceed = match action {
        AcceptAction::Stop | AcceptAction::SignalDown => false,
        _ => !dropped,
    };
    (action, proceed)
}

impl Default for ServerTcpSettings {
    fn default() -> (settings: ServerTcpSettings)
        ensures
            settings == (ServerTcpSettings {
                address: IpAddress::V4(127, 0, 0, 1),
                port: 8080,
                bytes: BytesOptions::U32,
                order: OrderOptions::LittleEndian,
                max_connections: 0,
                recuse_when_full: false,
            }),
    {
        ServerTcpSettings {
            address: IpAddress::V4(127, 0, 0, 1),
            port: 8080,
            bytes: BytesOptions::U32,
            order: OrderOptions::LittleEndian,
            max_connections: 0,
            recuse_when_full: false,
        }
    }
}

/// Whether `peer` is the peer that a server named `name` with `settings`
/// makes for a socket from `address`, known by `id`.
pub open spec fn is_accepted_peer(
    peer: TcpConnection,
    id: u128,
    name: String,
    settings: ServerTcpSettings,
    address: SocketAddress,
) -> bool {
    &&& peer.uuid == Some(id)
    &&& peer.connection_name == name
    &&& peer.socket_addr == address
    &&& peer.network_side == NetworkSide::Server
    &&& peer.bytes == settings.bytes
    &&& peer.order == settings.order
    &&& !peer.listening
}

/// The identifiers of `wanted`, in order, that the table `peers` holds.
pub open spec fn connected_among(peers: Set<u128>, wanted: Seq<u128>) -> Seq<u128> {
    wanted.filter(|id: u128| peers.contains(id))
}

impl ServerTcpConnection {
    /// A connection that has not been started, with no peers.
    pub fn new(settings: ServerTcpSettings, name: String) -> (connection: ServerTcpConnection)
        ensures
            connection.settings == settings,
            connection.name == name,
            connection.lifecycle == Lifecycle::Idle,
            !connection.torn_down,
            connection.connections@ == Map::<u128, TcpConnection>::empty(),
    {
        ServerTcpConnection {
            settings,
            name,
            lifecycle: Lifecycle::Idle,
            torn_down: false,
            connections: HashMap::new(),
        }
    }

    /// The limiter that the accept loop of this connection starts with.
    pub fn limiter(&self) -> (limiter: AdmissionLimiter)
        ensures
            limiter == (AdmissionLimiter {
                max_connections: self.settings.max_connections,
                recuse_when_full: self.settings.recuse_when_full,
                active: 0,
            }),
    {
        AdmissionLimiter::new(self.settings.max_connections, self.settings.recuse_when_full)
    }

    /// Takes note that the bind loop has announced its listener. A
    /// connection that is `Starting` becomes `Active`. The result says
    /// whether that happened; where it did not, the listener is stale and
    /// is to be dropped.
    pub fn connection_up(&mut self) -> (accepted: bool)
        ensures
            accepted == (old(self).lifecycle == Lifecycle::Starting),
            final(self).lifecycle == (if accepted {
                Lifecycle::Active
            } else {
                old(self).lifecycle
            }),
            final(self).settings == old(self).settings,
            final(self).name == old(self).name,
            final(self).torn_down == old(self).torn_down,
            final(self).connections == old(self).connections,
    {
        match self.lifecycle {
            Lifecycle::Starting => {
                self.lifecycle = Lifecycle::Active;
                true
            },
            _ => false,
        }
    }

    /// Takes note that the accept loop has signalled that the listener is
    /// down: a connection that was `Starting` or `Active` is `Stopped`.
    /// The peers stay; whether to start again is the host's decision.
    pub fn connection_down(&mut self)
        ensures
            final(self).lifecycle == (if old(self).lifecycle == Lifecycle::Starting
                || old(self).lifecycle == Lifecycle::Active {
                Lifecycle::Stopped
            } else {
                old(self).lifecycle
            }),
            final(self).settings == old(self).settings,
            final(self).name == old(self).name,
            final(self).torn_down == old(self).torn_down,
            final(self).connections == old(self).connections,
    {
        match self.lifecycle {
            Lifecycle::Starting | Lifecycle::Active => {
                self.lifecycle = Lifecycle::Stopped;
            },
            _ => {},
        }
    }

    /// The first half of a cancellation: the background task is to be told
    /// to stop. A connection whose task is in flight, `Starting` or
    /// `Active`, is `Cancelling` from now until `finish_cancel`, and no
    /// start is legal meanwhile. The result says whether there is a task to
    /// tell.
    pub fn begin_cancel(&mut self) -> (signal: bool)
        ensures
            signal == (old(self).lifecycle == Lifecycle::Starting || old(self).lifecycle
                == Lifecycle::Active),
            final(self).lifecycle == (if signal {
                Lifecycle::Cancelling
            } else {
                old(self).lifecycle
            }),
            final(self).same_but_lifecycle(old(self)),
    {
        match self.lifecycle {
            Lifecycle::Starting | Lifecycle::Active => {
                self.lifecycle = Lifecycle::Cancelling;
                true
            },
            _ => false,
        }
    }

    /// The second half of a cancellation: the peers are let go, and the
    /// connection is `Idle`, ready for a new start.
    pub fn finish_cancel(&mut self)
        ensures
            final(self).lifecycle == Lifecycle::Idle,
            final(self).torn_down == old(self).torn_down,
            final(self).settings == old(self).settings,
            final(self).name == old(self).name,
            final(self).connections@ == Map::<u128, TcpConnection>::empty(),
    {
        self.connections.clear();
        self.lifecycle = Lifecycle::Idle;
    }

    /// Takes a socket that the accept loop handed off into the table of
    /// peers, under a fresh random identifier, and returns the identifier:
    /// the one to announce to the client in the "connected" message.
    pub fn client_connected(&mut self, address: SocketAddress) -> (id: u128)
        ensures
            is_random_identifier(id),
            final(self).connections@.dom() == old(self).connections@.dom().insert(id),
            is_accepted_peer(
                final(self).connections@[id],
                id,
                old(self).name,
                old(self).settings,
                address,
            ),
            forall|other: u128|
                other != id && old(self).connections@.contains_key(other)
                    ==> final(self).connections@[other] == old(self).connections@[other],
            final(self).settings == old(self).settings,
            final(self).name == old(self).name,
            final(self).lifecycle == old(self).lifecycle,
            final(self).torn_down == old(self).torn_down,
    {
        broadcast use vstd::std_specs::hash::group_hash_axioms;

        let peer = TcpConnection::new(
            self.name.clone(),
            address,
            NetworkSide::Server,
            self.settings.bytes,
            self.settings.order,
        );
        let id = match peer.uuid {
            Some(id) => id,
            None => 0,
        };
        self.connections.insert(id, peer);
        id
    }

    /// Removes the peer known by `id` from the table, as its down-signal was
    /// observed. The result says whether there was such a peer.
    pub fn client_down(&mut self, id: u128) -> (removed: bool)
        ensures
            removed == old(self).connections@.contains_key(id),
            final(self).connections@ == old(self).connections@.remove(id),
            final(self).settings == old(self).settings,
            final(self).name == old(self).name,
            final(self).lifecycle == old(self).lifecycle,
            final(self).torn_down == old(self).torn_down,
    {
        broadcast use vstd::std_specs::hash::group_hash_axioms;

        match self.connections.remove(&id) {
            Some(_) => true,
            None => false,
        }
    }

    /// Marks the peer known by `id` as having its read loop attached. The
    /// result says whether the loop is to be started now: it is for a peer
    /// of the table that had none.
    pub fn start_listening(&mut self, id: u128) -> (attach: bool)
        ensures
            attach == (old(self).connections@.contains_key(id) && !old(self).connections@[id].listening),
            final(self).connections@.dom() == old(self).connections@.dom(),
            forall|other: u128|
                other != id && old(self).connections@.contains_key(other)
                    ==> final(self).connections@[other] == old(self).connections@[other],
            old(self).connections@.contains_key(id) ==> final(self).connections@[id].listening
                && final(self).connections@[id].same_but_listening(old(self).connections@[id]),
            final(self).settings == old(self).settings,
            final(self).name == old(self).name,
            final(self).lifecycle == old(self).lifecycle,
            final(self).torn_down == old(self).torn_down,
    {
        broadcast use vstd::std_specs::hash::group_hash_axioms;

        match self.connections.remove(&id) {
            Some(mut peer) => {
                let attach = peer.start_listen_server();
                self.connections.insert(id, peer);
                assert(final(self).connections@.dom() =~= old(self).connections@.dom());
                attach
            },
            None => {
                assert(final(self).connections@.dom() =~= old(self).connections@.dom());
                false
            },
        }
    }

    /// Whether a peer known by `id` is in the table.
    pub fn is_connected(&self, id: u128) -> (held: bool)
        ensures
            held == self.connections@.contains_key(id),
    {
        broadcast use vstd::std_specs::hash::group_hash_axioms;

        self.connections.contains_key(&id)
    }

    /// The identifiers of all peers in the table, each once.
    pub fn peers(&self) -> (ids: Vec<u128>)
        ensures
            ids@.no_duplicates(),
            ids@.to_set() == self.connections@.dom(),
    {
        broadcast use vstd::std_specs::hash::group_hash_axioms;

        let mut ids: Vec<u128> = Vec::new();
        let keys = self.connections.keys();
        for id in it: keys
            invariant
                ids@.len() == it.index(),
                forall|i: int| 0 <= i < ids@.len() ==> ids@[i] == *it.seq()[i],
        {
            ids.push(*id);
        }
        assert(ids@ =~= self.connections.keys().remaining().unref());
        ids
    }

    /// Whether a payload of `length` bytes can be framed for the peers of
    /// this connection.
    pub fn can_send(&self, length: usize) -> (held: bool)
        ensures
            held == representable(length as nat, self.settings.bytes),
    {
        fits(length, self.settings.bytes)
    }

    /// What to write for a message to every peer: its frame, and all peers
    /// of the table.
    pub fn send_for_all_clients(&self, payload: &Vec<u8>) -> (outbound: Outbound)
        requires
            representable(payload@.len(), self.settings.bytes),
        ensures
            outbound.wire@ == frame(payload@, self.settings.bytes, self.settings.order),
            outbound.recipients@.no_duplicates(),
            outbound.recipients@.to_set() == self.connections@.dom(),
    {
        Outbound {
            wire: frame_message(payload, self.settings.bytes, self.settings.order),
            recipients: self.peers(),
        }
    }

    /// What to write for a message to the peers listed: its frame, and of
    /// the peers listed, in their order, those that are in the table. A
    /// peer that is not in the table gets nothing.
    pub fn send_to_clients(&self, payload: &Vec<u8>, to_clients: &Vec<u128>) -> (outbound: Outbound)
        requires
            representable(payload@.len(), self.settings.bytes),
        ensures
            outbound.wire@ == frame(payload@, self.settings.bytes, self.settings.order),
            outbound.recipients@ == connected_among(self.connections@.dom(), to_clients@),
    {
        broadcast use vstd::std_specs::hash::group_hash_axioms;

        let ghost keep = |id: u128| self.connections@.dom().contains(id);
        let mut recipients: Vec<u128> = Vec::new();
        let mut at: usize = 0;
        while at < to_clients.len()
            invariant
                at <= to_clients.len(),
                keep == (|id: u128| self.connections@.dom().contains(id)),
                recipients@ == to_clients@.subrange(0, at as int).filter(keep),
            decreases to_clients.len() - at,
        {
            let id = to_clients[at];
            proof {
                let before = to_clients@.subrange(0, at as int);
                let longer = to_clients@.subrange(0, at + 1);
                assert(longer.drop_last() =~= before);
                assert(longer.last() == id);
                reveal(Seq::filter);
            }
            if self.connections.contains_key(&id) {
                recipients.push(id);
            }
            at = at + 1;
        }
        assert(to_clients@.subrange(0, at as int) =~= to_clients@);
        Outbound {
            wire: frame_message(payload, self.settings.bytes, self.settings.order),
            recipients,
        }
    }

    /// What to write for a message to one peer: its frame, and the peer if
    /// it is in the table. A peer that is not in the table gets nothing.
    pub fn send_message_to_client(&self, payload: &Vec<u8>, uuid: &u128) -> (outbound: Outbound)
        requires
            representable(payload@.len(), self.settings.bytes),
        ensures
            outbound.wire@ == frame(payload@, self.settings.bytes, self.settings.order),
            outbound.recipients@ == (if self.connections@.contains_key(*uuid) {
                seq![*uuid]
            } else {
                Seq::<u128>::empty()
            }),
    {
        broadcast use vstd::std_specs::hash::group_hash_axioms;

        let mut recipients: Vec<u128> = Vec::new();
        if self.connections.contains_key(uuid) {
            recipients.push(*uuid);
        }
        Outbound {
            wire: frame_message(payload, self.settings.bytes, self.settings.order),
            recipients,
        }
    }
}

impl Connection for ServerTcpConnection {
    open spec fn lifecycle(&self) -> Lifecycle {
        self.lifecycle
    }

    open spec fn torn_down(&self) -> bool {
        self.torn_down
    }

    open spec fn same_but_lifecycle(&self, before: &Self) -> bool {
        &&& self.settings == before.settings
        &&& self.name == before.name
        &&& self.torn_down == before.torn_down
        &&& self.connections == before.connections
    }

    fn start_connection(&mut self) -> (launch: bool)
        ensures
            final(self).settings == old(self).settings,
            final(self).name == old(self).name,
            final(self).connections == old(self).connections,
    {
        if !self.can_start() {
            return false;
        }
        self.lifecycle = Lifecycle::Starting;
        true
    }

    fn can_start(&self) -> (legal: bool) {
        !self.torn_down && (self.lifecycle == Lifecycle::Idle || self.lifecycle
            == Lifecycle::Stopped)
    }

    fn cancel_connection(&mut self)
        ensures
            final(self).settings == old(self).settings,
            final(self).name == old(self).name,
            final(self).connections@ == Map::<u128, TcpConnection>::empty(),
    {
        let _ = self.begin_cancel();
        self.finish_cancel();
    }

    fn disconnect(&mut self)
        ensures
            final(self).settings == old(self).settings,
            final(self).name == old(self).name,
            final(self).connections@ == Map::<u128, TcpConnection>::empty(),
    {
        let _ = self.begin_cancel();
        self.finish_cancel();
        self.torn_down = true;
        self.lifecycle = Lifecycle::Stopped;
    }
}

} // verus!
