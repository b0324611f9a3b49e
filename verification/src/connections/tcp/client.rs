//! The client side of a connection: its settings, the decisions of its
//! connect loop, and the state machine that the host drives from its tick.

use vstd::prelude::*;
use crate::NetworkSide;
use crate::connections::{BytesOptions, Connection, Lifecycle, OrderOptions};
use crate::connections::tcp::connection::{IpAddress, SocketAddress, TcpConnection};

verus! {

/// Where a client connects to, and how it frames its messages.
#[derive(PartialEq, Eq, Structural, Debug, Clone, Copy)]
pub struct ClientTcpSettings {
    pub address: IpAddress,
    pub port: u16,
    pub bytes: BytesOptions,
    pub order: OrderOptions,
}

/// A client connection as the host's tick sees it.
pub struct ClientTcpConnection {
    pub settings: ClientTcpSettings,
    pub name: String,
    pub lifecycle: Lifecycle,
    pub torn_down: bool,
    pub local_tcp_connection: Option<TcpConnection>,
}

/// What the connect or bind loop does after one attempt.
#[derive(PartialEq, Eq, Structural, Debug, Clone, Copy)]
pub enum AttemptAction {
    /// The attempt succeeded: announce the socket or listener, and go on.
    Announce,
    /// The attempt failed and nobody cancelled: try again at once.
    Retry,
    /// Cancellation was seen: give up, and let go of what was obtained.
    Abandon,
}

/// The decision of the connect loop after one attempt: a socket is
/// announced as soon as there is one; a failed attempt is repeated without
/// delay for as long as the cancellation flag is down.
pub open spec fn connect_step_spec(connected: bool, dropped: bool) -> AttemptAction {
    if connected {
        AttemptAction::Announce
    } else if dropped {
        AttemptAction::Abandon
    } else {
        AttemptAction::Retry
    }
}

/// The decision of the connect loop after one attempt.
pub fn connect_step(connected: bool, dropped: bool) -> (action: AttemptAction)
    ensures
        action == connect_step_spec(connected, dropped),
{
    if connected {
        AttemptAction::Announce
    } else if dropped {
        AttemptAction::Abandon
    } else {
        AttemptAction::Retry
    }
}

impl Default for ClientTcpSettings {
    fn default() -> (settings: ClientTcpSettings)
        ensures
            settings == (ClientTcpSettings {
                address: IpAddress::V4(127, 0, 0, 1),
                port: 8080,
                bytes: BytesOptions::U32,
                order: OrderOptions::LittleEndian,
            }),
    {
        ClientTcpSettings {
            address: IpAddress::V4(127, 0, 0, 1),
            port: 8080,
            bytes: BytesOptions::U32,
            order: OrderOptions::LittleEndian,
        }
    }
}

impl ClientTcpSettings {
    /// Settings made of the four values given.
    pub fn new(address: IpAddress, port: u16, bytes: BytesOptions, order: OrderOptions) -> (settings:
        ClientTcpSettings)
        ensures
            settings == (ClientTcpSettings { address, port, bytes, order }),
    {
        ClientTcpSettings { address, port, bytes, order }
    }
}

impl ClientTcpConnection {
    /// A connection that has not been started.
    pub fn new(settings: ClientTcpSettings, name: String) -> (connection: ClientTcpConnection)
        ensures
            connection.settings == settings,
            connection.name == name,
            connection.lifecycle == Lifecycle::Idle,
            !connection.torn_down,
            connection.local_tcp_connection is None,
    {
        ClientTcpConnection {
            settings,
            name,
            lifecycle: Lifecycle::Idle,
            torn_down: false,
            local_tcp_connection: None,
        }
    }

    /// Takes note that the connect loop has announced a socket to the peer
    /// at `peer`. A connection that is `Starting` becomes `Active`: it drops
    /// the peer it had, and holds a new one for the socket, with its read
    /// loop attached. The result says whether that happened; where it did
    /// not, the socket is stale and is to be dropped.
    pub fn connection_up(&mut self, peer: SocketAddress) -> (accepted: bool)
        ensures
            accepted == (old(self).lifecycle == Lifecycle::Starting),
            final(self).settings == old(self).settings,
            final(self).name == old(self).name,
            final(self).torn_down == old(self).torn_down,
            !accepted ==> *final(self) == *old(self),
            accepted ==> final(self).lifecycle == Lifecycle::Active,
            accepted ==> (final(self).local_tcp_connection matches Some(local)
                && local.connection_name == old(self).name && local.socket_addr == peer
                && local.network_side == NetworkSide::Client && local.uuid is None
                && local.bytes == old(self).settings.bytes
                && local.order == old(self).settings.order && local.listening),
    {
        match self.lifecycle {
            Lifecycle::Starting => {
                let mut local = TcpConnection::new(
                    self.name.clone(),
                    peer,
                    NetworkSide::Client,
                    self.settings.bytes,
                    self.settings.order,
                );
                let _ = local.start_listen_server();
                self.local_tcp_connection = Some(local);
                self.lifecycle = Lifecycle::Active;
                true
            },
            _ => false,
        }
    }

    /// Takes note that the read loop has signalled that the socket is down:
    /// a connection that was `Starting` or `Active` is `Stopped`, and holds
    /// no peer any more. Whether to start again is the host's decision.
    pub fn connection_down(&mut self)
        ensures
            final(self).settings == old(self).settings,
            final(self).name == old(self).name,
            final(self).torn_down == old(self).torn_down,
            final(self).lifecycle == (if old(self).lifecycle == Lifecycle::Starting
                || old(self).lifecycle == Lifecycle::Active {
                Lifecycle::Stopped
            } else {
                old(self).lifecycle
            }),
            final(self).local_tcp_connection is None,
    {
        match self.lifecycle {
            Lifecycle::Starting | Lifecycle::Active => {
                self.lifecycle = Lifecycle::Stopped;
            },
            _ => {},
        }
        self.local_tcp_connection = None;
    }

    /// Takes note of the identifier that the server announced in its
    /// "connected" message: the peer held, if there is one, is known by it
    /// from now on. The result says whether there was a peer to name.
    pub fn connected(&mut self, uuid: u128) -> (named: bool)
        ensures
            named == old(self).local_tcp_connection is Some,
            final(self).settings == old(self).settings,
            final(self).name == old(self).name,
            final(self).lifecycle == old(self).lifecycle,
            final(self).torn_down == old(self).torn_down,
            final(self).local_tcp_connection is Some == named,
            named ==> ({
                let before = old(self).local_tcp_connection->0;
                let after = final(self).local_tcp_connection->0;
                &&& after.uuid == Some(uuid)
                &&& after.connection_name == before.connection_name
                &&& after.socket_addr == before.socket_addr
                &&& after.network_side == before.network_side
                &&& after.bytes == before.bytes
                &&& after.order == before.order
                &&& after.listening == before.listening
            }),
    {
        match self.local_tcp_connection.take() {
            Some(mut local) => {
                local.uuid = Some(uuid);
                self.local_tcp_connection = Some(local);
                true
            },
            None => false,
        }
    }

    /// The first half of a cancellation: the background task is to be told
    /// to stop. A connection whose task is in flight, `Starting` or
    /// `Active`, is `Cancelling` from now until `finish_cancel`, and no
    /// start is legal meanwhile. The result says whether there is a task to
    /// tell.
    pub fn begin_cancel(&mut self) -> (signal: bool)
        ensures
            signal == (old(self).lifecycle == Lifecycle::Starting || old(self).lifecycle
                == Lifecycle::Active),
            final(self).lifecycle == (if signal {
                Lifecycle::Cancelling
            } else {
                old(self).lifecycle
            }),
            final(self).same_but_lifecycle(old(self)),
    {
        match self.lifecycle {
            Lifecycle::Starting | Lifecycle::Active => {
                self.lifecycle = Lifecycle::Cancelling;
                true
            },
            _ => false,
        }
    }

    /// The second half of a cancellation: the peer is let go, and the
    /// connection is `Idle`, ready for a new start.
    pub fn finish_cancel(&mut self)
        ensures
            final(self).lifecycle == Lifecycle::Idle,
            final(self).torn_down == old(self).torn_down,
            final(self).settings == old(self).settings,
            final(self).name == old(self).name,
            final(self).local_tcp_connection is None,
    {
        self.local_tcp_connection = None;
        self.lifecycle = Lifecycle::Idle;
    }

    /// The identifier that the server gave this client, once announced.
    pub fn uuid(&self) -> (uuid: Option<u128>)
        ensures
            uuid == (match self.local_tcp_connection {
                Some(local) => local.uuid,
                None => None,
            }),
    {
        match &self.local_tcp_connection {
            Some(local) => local.uuid,
            None => None,
        }
    }
}

impl Connection for ClientTcpConnection {
    open spec fn lifecycle(&self) -> Lifecycle {
        self.lifecycle
    }

    open spec fn torn_down(&self) -> bool {
        self.torn_down
    }

    open spec fn same_but_lifecycle(&self, before: &Self) -> bool {
        &&& self.settings == before.settings
        &&& self.name == before.name
        &&& self.torn_down == before.torn_down
        &&& self.local_tcp_connection == before.local_tcp_connection
    }

    fn start_connection(&mut self) -> (launch: bool)
        ensures
            final(self).settings == old(self).settings,
            final(self).name == old(self).name,
            final(self).local_tcp_connection == old(self).local_tcp_connection,
    {
        if !self.can_start() {
            return false;
        }
        self.lifecycle = Lifecycle::Starting;
        true
    }

    fn can_start(&self) -> (legal: bool) {
        !self.torn_down && (self.lifecycle == Lifecycle::Idle || self.lifecycle
            == Lifecycle::Stopped)
    }

    fn cancel_connection(&mut self)
        ensures
            final(self).settings == old(self).settings,
            final(self).name == old(self).name,
            final(self).local_tcp_connection is None,
    {
        let _ = self.begin_cancel();
        self.finish_cancel();
    }

    fn disconnect(&mut self)
        ensures
            final(self).settings == old(self).settings,
            final(self).name == old(self).name,
            final(self).local_tcp_connection is None,
    {
        let _ = self.begin_cancel();
        self.finish_cancel();
        self.torn_down = true;
        self.lifecycle = Lifecycle::Stopped;
    }
}

} // verus!
