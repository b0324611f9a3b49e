//! Connection settings shared by every transport, and the tables of named
//! connections that a host process owns.

use vstd::prelude::*;
use crate::connections::connect_map::ConnectMap;
use crate::connections::tcp::client::{ClientTcpConnection, ClientTcpSettings};
use crate::connections::tcp::connection::{frame, TcpConnection};
use crate::connections::tcp::reader_writer::representable;
use crate::connections::tcp::server::{
    connected_among,
    Outbound,
    ServerTcpConnection,
    ServerTcpSettings,
};

pub mod connect_map;
pub mod tcp;

verus! {

/// Byte order of a length prefix on the wire.
#[derive(PartialEq, Eq, Structural, Debug, Clone, Copy)]
pub enum OrderOptions {
    LittleEndian,
    BigEndian,
}

/// Numeric format of a length prefix on the wire.
#[derive(PartialEq, Eq, Structural, Debug, Clone, Copy)]
pub enum BytesOptions {
    U8,
    U16,
    U32,
    U64,
    U128,
    I8,
    I16,
    I32,
    I64,
    I128,
    F32,
    F64,
}

/// A length prefix as it was read from, or is about to be written to, the
/// wire. The two binary floating-point formats carry their IEEE 754 bit
/// pattern.
#[derive(PartialEq, Eq, Structural, Debug, Clone, Copy)]
pub enum ReadValue {
    U8(u8),
    U16(u16),
    U32(u32),
    U64(u64),
    U128(u128),
    I8(i8),
    I16(i16),
    I32(i32),
    I64(i64),
    I128(i128),
    F32(u32),
    F64(u64),
}

/// The transports a connection can run over.
#[derive(PartialEq, Eq, Structural, Debug, Clone, Copy)]
pub enum ConnectionsType {
    Tcp,
}

impl Default for BytesOptions {
    fn default() -> (bytes: BytesOptions)
        ensures
            bytes == BytesOptions::U32,
    {
        BytesOptions::U32
    }
}

impl Default for OrderOptions {
    fn default() -> (order: OrderOptions)
        ensures
            order == OrderOptions::LittleEndian,
    {
        OrderOptions::LittleEndian
    }
}

impl ReadValue {
    /// The format this value is written in.
    pub open spec fn format(self) -> BytesOptions {
        match self {
            ReadValue::U8(_) => BytesOptions::U8,
            ReadValue::U16(_) => BytesOptions::U16,
            ReadValue::U32(_) => BytesOptions::U32,
            ReadValue::U64(_) => BytesOptions::U64,
            ReadValue::U128(_) => BytesOptions::U128,
            ReadValue::I8(_) => BytesOptions::I8,
            ReadValue::I16(_) => BytesOptions::I16,
            ReadValue::I32(_) => BytesOptions::I32,
            ReadValue::I64(_) => BytesOptions::I64,
            ReadValue::I128(_) => BytesOptions::I128,
            ReadValue::F32(_) => BytesOptions::F32,
            ReadValue::F64(_) => BytesOptions::F64,
        }
    }
}

impl BytesOptions {
    /// Number of bytes a prefix of this format occupies on the wire.
    pub open spec fn width(self) -> nat {
        match self {
            BytesOptions::U8 | BytesOptions::I8 => 1,
            BytesOptions::U16 | BytesOptions::I16 => 2,
            BytesOptions::U32 | BytesOptions::I32 | BytesOptions::F32 => 4,
            BytesOptions::U64 | BytesOptions::I64 | BytesOptions::F64 => 8,
            BytesOptions::U128 | BytesOptions::I128 => 16,
        }
    }

    /// Number of bytes a prefix of this format occupies on the wire.
    pub fn byte_width(&self) -> (n: usize)
        ensures
            n == self.width(),
    {
        match self {
            BytesOptions::U8 | BytesOptions::I8 => 1,
            BytesOptions::U16 | BytesOptions::I16 => 2,
            BytesOptions::U32 | BytesOptions::I32 | BytesOptions::F32 => 4,
            BytesOptions::U64 | BytesOptions::I64 | BytesOptions::F64 => 8,
            BytesOptions::U128 | BytesOptions::I128 => 16,
        }
    }
}

/// Where a connection stands in its life.
#[derive(PartialEq, Eq, Structural, Debug, Clone, Copy)]
pub enum Lifecycle {
    /// Not started, or cancelled: ready to start.
    Idle,
    /// The background task is binding or connecting.
    Starting,
    /// The listener or socket is there.
    Active,
    /// Cancellation has been signalled, and what the connection owns has
    /// not been released yet.
    Cancelling,
    /// The background loop has ended.
    Stopped,
}

/// Whether a start is legal: only from `Idle` or `Stopped`, and only while
/// the background execution context has not been torn down.
pub open spec fn startable(lifecycle: Lifecycle, torn_down: bool) -> bool {
    !torn_down && (lifecycle == Lifecycle::Idle || lifecycle == Lifecycle::Stopped)
}

/// The life cycle that client and server connections share.
pub trait Connection {
    /// Where the connection stands.
    spec fn lifecycle(&self) -> Lifecycle;

    /// Whether `disconnect` has torn the background execution context down.
    spec fn torn_down(&self) -> bool;

    /// Whether this connection is `before` but for where it stands in its
    /// life.
    spec fn same_but_lifecycle(&self, before: &Self) -> bool;

    /// Starts the connection where that is legal, and says whether the
    /// background task is to be launched now. An illegal start changes
    /// nothing.
    fn start_connection(&mut self) -> (launch: bool)
        ensures
            launch == startable(old(self).lifecycle(), old(self).torn_down()),
            final(self).lifecycle() == (if launch {
                Lifecycle::Starting
            } else {
                old(self).lifecycle()
            }),
            final(self).torn_down() == old(self).torn_down(),
            final(self).same_but_lifecycle(old(self)),
    ;

    /// Whether a start is legal now.
    fn can_start(&self) -> (legal: bool)
        ensures
            legal == startable(self.lifecycle(), self.torn_down()),
    ;

    /// Cancels the connection: the background task is told to stop, what the
    /// connection owns is released, and the connection is `Idle` again,
    /// ready for a new start.
    fn cancel_connection(&mut self)
        ensures
            final(self).lifecycle() == Lifecycle::Idle,
            final(self).torn_down() == old(self).torn_down(),
    ;

    /// Cancels the connection and tears its background execution context
    /// down: it is `Stopped`, and no start is legal any more.
    fn disconnect(&mut self)
        ensures
            final(self).lifecycle() == Lifecycle::Stopped,
            final(self).torn_down(),
    ;
}

/// Restarts a connection: cancels it, then starts it. The start is legal,
/// and the background task is to be launched, unless the connection's
/// background execution context was torn down.
pub fn restart<C: Connection>(connection: &mut C) -> (launch: bool)
    ensures
        launch == !old(connection).torn_down(),
        final(connection).torn_down() == old(connection).torn_down(),
        final(connection).lifecycle() == (if launch {
            Lifecycle::Starting
        } else {
            Lifecycle::Idle
        }),
{
    connection.cancel_connection();
    connection.start_connection()
}

/// The rules of starting: once a start was legal and has put the connection
/// into `Starting`, no second start is legal; a cancelled connection can be
/// started unless it was torn down; a connection that was torn down can
/// never be started.
pub proof fn lemma_start_rules(lifecycle: Lifecycle, torn_down: bool)
    ensures
        !startable(Lifecycle::Starting, torn_down),
        !startable(Lifecycle::Active, torn_down),
        !startable(Lifecycle::Cancelling, torn_down),
        startable(Lifecycle::Idle, torn_down) == !torn_down,
        startable(Lifecycle::Stopped, torn_down) == !torn_down,
        !startable(lifecycle, true),
{
}

/// A server connection, by its transport.
pub enum ServerConnectionType {
    Tcp(ServerTcpConnection),
}

/// A client connection, by its transport.
pub enum ClientConnectionType {
    Tcp(ClientTcpConnection),
}

/// The client connections of a process, by name.
pub struct ClientConnections(pub ConnectMap<ClientConnectionType>);

/// The server connections of a process, by name.
pub struct ServerConnections(pub ConnectMap<ServerConnectionType>);

/// What a table of named connections offers, whatever their side.
pub trait Connections: Sized {
    /// Each connection has its name, and no name stands twice.
    spec fn wf(&self) -> bool;

    /// The names of the connections in the table.
    spec fn names(&self) -> Set<Seq<char>>;

    /// An empty table.
    fn new() -> (table: Self)
        ensures
            table.wf(),
            table.names() == Set::<Seq<char>>::empty(),
    ;

    /// Disconnects the connection known by `name` and takes it out of the
    /// table. The other connections stay.
    fn remove_connection(&mut self, name: &str)
        requires
            old(self).wf(),
        ensures
            final(self).wf(),
            final(self).names() == old(self).names().remove(name@),
    ;

    /// Whether the table holds a connection known by `name`.
    fn is_connection_open(&self, name: &String) -> (open: bool)
        requires
            self.wf(),
        ensures
            open == self.names().contains(name@),
    ;
}

impl ServerConnectionType {
    /// The connection, whatever its transport.
    pub open spec fn tcp(self) -> ServerTcpConnection {
        match self {
            ServerConnectionType::Tcp(connection) => connection,
        }
    }
}

impl ClientConnectionType {
    /// The connection, whatever its transport.
    pub open spec fn tcp(self) -> ClientTcpConnection {
        match self {
            ClientConnectionType::Tcp(connection) => connection,
        }
    }
}

impl Connections for ClientConnections {
    open spec fn wf(&self) -> bool {
        self.0.wf()
    }

    open spec fn names(&self) -> Set<Seq<char>> {
        self.0.dom()
    }

    fn new() -> (table: ClientConnections) {
        let table = ClientConnections(ConnectMap::new());
        assert(table.names() =~= Set::<Seq<char>>::empty());
        table
    }

    fn remove_connection(&mut self, name: &str)
        ensures
            forall|other: Seq<char>|
                other != name@ && old(self).0.contains(other)
                    ==> final(self).0.value(other) == old(self).0.value(other),
    {
        let key = name.to_owned();
        match self.0.remove(&key) {
            Some(connection) => match connection {
                ClientConnectionType::Tcp(mut connection) => {
                    connection.disconnect();
                },
            },
            None => {},
        }
        assert(final(self).names() =~= old(self).names().remove(name@));
    }

    fn is_connection_open(&self, name: &String) -> (open: bool) {
        self.0.find(name).is_some()
    }
}

impl Connections for ServerConnections {
    open spec fn wf(&self) -> bool {
        self.0.wf()
    }

    open spec fn names(&self) -> Set<Seq<char>> {
        self.0.dom()
    }

    fn new() -> (table: ServerConnections) {
        let table = ServerConnections(ConnectMap::new());
        assert(table.names() =~= Set::<Seq<char>>::empty());
        table
    }

    fn remove_connection(&mut self, name: &str)
        ensures
            forall|other: Seq<char>|
                other != name@ && old(self).0.contains(other)
                    ==> final(self).0.value(other) == old(self).0.value(other),
    {
        let key = name.to_owned();
        match self.0.remove(&key) {
            Some(connection) => match connection {
                ServerConnectionType::Tcp(mut connection) => {
                    connection.disconnect();
                },
            },
            None => {},
        }
        assert(final(self).names() =~= old(self).names().remove(name@));
    }

    fn is_connection_open(&self, name: &String) -> (open: bool) {
        self.0.find(name).is_some()
    }
}

impl ClientConnections {
    /// Adds a client connection with the settings given under `name`, not
    /// yet started. Where the table holds a connection of that name
    /// already, nothing changes. The result says whether the connection was
    /// added.
    pub fn new_client_tcp_connection(&mut self, settings: ClientTcpSettings, name: &str) -> (added:
        bool)
        requires
            old(self).wf(),
        ensures
            final(self).wf(),
            added == !old(self).names().contains(name@),
            !added ==> *final(self) == *old(self),
            final(self).names() == old(self).names().insert(name@),
            forall|other: Seq<char>|
                old(self).0.contains(other) ==> final(self).0.value(other) == old(self).0.value(
                    other,
                ),
            added ==> ({
                let connection = final(self).0.value(name@).tcp();
                &&& connection.settings == settings
                &&& connection.name@ == name@
                &&& connection.lifecycle == Lifecycle::Idle
                &&& !connection.torn_down
                &&& connection.local_tcp_connection is None
            }),
    {
        let key = name.to_owned();
        let connection = ClientTcpConnection::new(settings, name.to_owned());
        let added = self.0.insert(key, ClientConnectionType::Tcp(connection));
        proof {
            let before = old(self).0;
            let after = self.0;
            if added {
                assert forall|other: Seq<char>| before.contains(other) implies after.value(other)
                    == before.value(other) by {
                    let place = before.position(other);
                    assert(after.names@[place] == before.names@[place]);
                    after.lemma_position(other, place);
                }
                assert forall|other: Seq<char>| after.contains(other) implies other == name@
                    || before.contains(other) by {
                    let place = after.position(other);
                    if place < before.names@.len() {
                        assert(after.names@[place] == before.names@[place]);
                    }
                }
                assert forall|other: Seq<char>| before.contains(other) implies after.contains(
                    other,
                ) by {
                    let place = before.position(other);
                    assert(after.names@[place] == before.names@[place]);
                }
            }
            assert(final(self).names() =~= old(self).names().insert(name@));
        }
        added
    }
}

impl ServerConnections {
    /// Adds a server connection with the settings given under `name`, not
    /// yet started and without peers. Where the table holds a connection of
    /// that name already, nothing changes. The result says whether the
    /// connection was added.
    pub fn new_server_tcp_connection(&mut self, settings: ServerTcpSettings, name: &str) -> (added:
        bool)
        requires
            old(self).wf(),
        ensures
            final(self).wf(),
            added == !old(self).names().contains(name@),
            !added ==> *final(self) == *old(self),
            final(self).names() == old(self).names().insert(name@),
            forall|other: Seq<char>|
                old(self).0.contains(other) ==> final(self).0.value(other) == old(self).0.value(
                    other,
                ),
            added ==> ({
                let connection = final(self).0.value(name@).tcp();
                &&& connection.settings == settings
                &&& connection.name@ == name@
                &&& connection.lifecycle == Lifecycle::Idle
                &&& !connection.torn_down
                &&& connection.connections@ == Map::<u128, TcpConnection>::empty()
            }),
    {
        let key = name.to_owned();
        let connection = ServerTcpConnection::new(settings, name.to_owned());
        let added = self.0.insert(key, ServerConnectionType::Tcp(connection));
        proof {
            let before = old(self).0;
            let after = self.0;
            if added {
                assert forall|other: Seq<char>| before.contains(other) implies after.value(other)
                    == before.value(other) by {
                    let place = before.position(other);
                    assert(after.names@[place] == before.names@[place]);
                    after.lemma_position(other, place);
                }
                assert forall|other: Seq<char>| after.contains(other) implies other == name@
                    || before.contains(other) by {
                    let place = after.position(other);
                    if place < before.names@.len() {
                        assert(after.names@[place] == before.names@[place]);
                    }
                }
                assert forall|other: Seq<char>| before.contains(other) implies after.contains(
                    other,
                ) by {
                    let place = before.position(other);
                    assert(after.names@[place] == before.names@[place]);
                }
            }
            assert(final(self).names() =~= old(self).names().insert(name@));
        }
        added
    }

    /// Whether a payload of `length` bytes can be framed for the peers of
    /// the connection known by `name`, if there is such a connection.
    pub open spec fn payload_fits(&self, name: Seq<char>, length: nat) -> bool {
        self.0.contains(name) ==> representable(length, self.0.value(name).tcp().settings.bytes)
    }

    /// Whether a payload of `length` bytes can be sent on the connection
    /// known by `name`: always where there is no such connection, as
    /// nothing is framed then.
    pub fn can_send(&self, name: &String, length: usize) -> (held: bool)
        requires
            self.wf(),
        ensures
            held == self.payload_fits(name@, length as nat),
    {
        match self.0.find(name) {
            Some(at) => match &self.0.values[at] {
                ServerConnectionType::Tcp(connection) => connection.can_send(length),
            },
            None => true,
        }
    }

    /// What to write for an encoded message to every peer of the connection
    /// known by `name`: its frame, and all peers of that connection. `None`
    /// exactly when there is no connection of that name.
    pub fn send_for_all_clients(&self, payload: &Vec<u8>, name: &String) -> (outbound: Option<
        Outbound,
    >)
        requires
            self.wf(),
            self.payload_fits(name@, payload@.len()),
        ensures
            outbound is Some == self.names().contains(name@),
            outbound matches Some(out) ==> ({
                let connection = self.0.value(name@).tcp();
                &&& out.wire@ == frame(payload@, connection.settings.bytes, connection.settings.order)
                &&& out.recipients@.no_duplicates()
                &&& out.recipients@.to_set() == connection.connections@.dom()
            }),
    {
        match self.0.find(name) {
            Some(at) => match &self.0.values[at] {
                ServerConnectionType::Tcp(connection) => Some(
                    connection.send_for_all_clients(payload),
                ),
            },
            None => None,
        }
    }

    /// What to write for an encoded message to the peers listed of the
    /// connection known by `name`: its frame, and of the peers listed, in
    /// their order, those that the connection holds. `None` exactly when
    /// there is no connection of that name.
    pub fn send_to_clients(&self, payload: &Vec<u8>, name: &String, to_clients: &Vec<u128>) -> (outbound:
        Option<Outbound>)
        requires
            self.wf(),
            self.payload_fits(name@, payload@.len()),
        ensures
            outbound is Some == self.names().contains(name@),
            outbound matches Some(out) ==> ({
                let connection = self.0.value(name@).tcp();
                &&& out.wire@ == frame(payload@, connection.settings.bytes, connection.settings.order)
                &&& out.recipients@ == connected_among(connection.connections@.dom(), to_clients@)
            }),
    {
        match self.0.find(name) {
            Some(at) => match &self.0.values[at] {
                ServerConnectionType::Tcp(connection) => Some(
                    connection.send_to_clients(payload, to_clients),
                ),
            },
            None => None,
        }
    }

    /// What to write for an encoded message to one peer of the connection
    /// known by `name`: its frame, and the peer if the connection holds it.
    /// `None` exactly when there is no connection of that name.
    pub fn send_message_to_client(&self, name: &str, payload: &Vec<u8>, uuid: &u128) -> (outbound:
        Option<Outbound>)
        requires
            self.wf(),
            self.payload_fits(name@, payload@.len()),
        ensures
            outbound is Some == self.names().contains(name@),
            outbound matches Some(out) ==> ({
                let connection = self.0.value(name@).tcp();
                &&& out.wire@ == frame(payload@, connection.settings.bytes, connection.settings.order)
                &&& out.recipients@ == (if connection.connections@.contains_key(*uuid) {
                    seq![*uuid]
                } else {
                    Seq::<u128>::empty()
                })
            }),
    {
        let key = name.to_owned();
        match self.0.find(&key) {
            Some(at) => match &self.0.values[at] {
                ServerConnectionType::Tcp(connection) => Some(
                    connection.send_message_to_client(payload, uuid),
                ),
            },
            None => None,
        }
    }
}

impl Connection for ServerConnectionType {
    open spec fn lifecycle(&self) -> Lifecycle {
        self.tcp().lifecycle
    }

    open spec fn torn_down(&self) -> bool {
        self.tcp().torn_down
    }

    open spec fn same_but_lifecycle(&self, before: &Self) -> bool {
        self.tcp().same_but_lifecycle(&before.tcp())
    }

    fn start_connection(&mut self) -> (launch: bool) {
        match self {
            ServerConnectionType::Tcp(connection) => connection.start_connection(),
        }
    }

    fn can_start(&self) -> (legal: bool) {
        match self {
            ServerConnectionType::Tcp(connection) => connection.can_start(),
        }
    }

    fn cancel_connection(&mut self)
        ensures
            final(self).tcp().settings == old(self).tcp().settings,
            final(self).tcp().name == old(self).tcp().name,
            final(self).tcp().connections@ == Map::<u128, TcpConnection>::empty(),
    {
        match self {
            ServerConnectionType::Tcp(connection) => connection.cancel_connection(),
        }
    }

    fn disconnect(&mut self) {
        match self {
            ServerConnectionType::Tcp(connection) => connection.disconnect(),
        }
    }
}

impl Connection for ClientConnectionType {
    open spec fn lifecycle(&self) -> Lifecycle {
        self.tcp().lifecycle
    }

    open spec fn torn_down(&self) -> bool {
        self.tcp().torn_down
    }

    open spec fn same_but_lifecycle(&self, before: &Self) -> bool {
        self.tcp().same_but_lifecycle(&before.tcp())
    }

    fn start_connection(&mut self) -> (launch: bool) {
        match self {
            ClientConnectionType::Tcp(connection) => connection.start_connection(),
        }
    }

    fn can_start(&self) -> (legal: bool) {
        match self {
            ClientConnectionType::Tcp(connection) => connection.can_start(),
        }
    }

    fn cancel_connection(&mut self)
        ensures
            final(self).tcp().settings == old(self).tcp().settings,
            final(self).tcp().name == old(self).tcp().name,
            final(self).tcp().local_tcp_connection is None,
    {
        match self {
            ClientConnectionType::Tcp(connection) => connection.cancel_connection(),
        }
    }

    fn disconnect(&mut self) {
        match self {
            ClientConnectionType::Tcp(connection) => connection.disconnect(),
        }
    }
}

/// The names, in the order of the table, of the connections that a start
/// is legal for.
pub open spec fn startable_names<C: Connection>(names: Seq<String>, values: Seq<C>) -> Seq<
    Seq<char>,
>
    decreases names.len(),
{
    if names.len() == 0 || values.len() != names.len() {
        Seq::empty()
    } else {
        startable_names(names.drop_last(), values.drop_last()) + (if startable(
            values.last().lifecycle(),
            values.last().torn_down(),
        ) {
            seq![names.last()@]
        } else {
            Seq::empty()
        })
    }
}

/// The names that the strings of `names` spell.
pub open spec fn name_views(names: Seq<String>) -> Seq<Seq<char>> {
    Seq::new(names.len(), |i: int| names[i]@)
}

/// Starts every connection of the table that a start is legal for, and
/// returns their names, in the order of the table: those whose background
/// task is to be launched now. The other connections stay as they are.
pub fn start_all<C: Connection>(table: &mut ConnectMap<C>) -> (launched: Vec<String>)
    requires
        old(table).wf(),
    ensures
        final(table).wf(),
        final(table).names == old(table).names,
        final(table).values@.len() == old(table).values@.len(),
        forall|i: int|
            0 <= i < old(table).values@.len() ==> {
                let before = old(table).values@[i];
                let after = #[trigger] final(table).values@[i];
                &&& after.same_but_lifecycle(&before)
                &&& after.torn_down() == before.torn_down()
                &&& after.lifecycle() == (if startable(before.lifecycle(), before.torn_down()) {
                    Lifecycle::Starting
                } else {
                    before.lifecycle()
                })
            },
        name_views(launched@) == startable_names(old(table).names@, old(table).values@),
{
    let mut launched: Vec<String> = Vec::new();
    let mut at: usize = 0;
    while at < table.values.len()
        invariant
            at <= table.values@.len(),
            table.wf(),
            table.names == old(table).names,
            table.values@.len() == old(table).values@.len(),
            forall|i: int|
                at <= i < old(table).values@.len() ==> table.values@[i] == old(table).values@[i],
            forall|i: int|
                0 <= i < at ==> {
                    let before = old(table).values@[i];
                    let after = #[trigger] table.values@[i];
                    &&& after.same_but_lifecycle(&before)
                    &&& after.torn_down() == before.torn_down()
                    &&& after.lifecycle() == (if startable(before.lifecycle(), before.torn_down()) {
                        Lifecycle::Starting
                    } else {
                        before.lifecycle()
                    })
                },
            name_views(launched@) == startable_names(
                old(table).names@.subrange(0, at as int),
                old(table).values@.subrange(0, at as int),
            ),
        decreases table.values@.len() - at,
    {
        let ghost names = old(table).names@.subrange(0, at + 1);
        let ghost values = old(table).values@.subrange(0, at + 1);
        let ghost sofar = name_views(launched@);
        proof {
            assert(names.drop_last() =~= old(table).names@.subrange(0, at as int));
            assert(values.drop_last() =~= old(table).values@.subrange(0, at as int));
            assert(names.last() == old(table).names@[at as int]);
            assert(values.last() == old(table).values@[at as int]);
        }
        let launch = table.values[at].start_connection();
        if launch {
            launched.push(table.names[at].clone());
            assert(name_views(launched@) =~= sofar + seq![names.last()@]);
        } else {
            assert(sofar + Seq::<Seq<char>>::empty() =~= sofar);
        }
        at = at + 1;
    }
    proof {
        assert(old(table).names@.subrange(0, at as int) =~= old(table).names@);
        assert(old(table).values@.subrange(0, at as int) =~= old(table).values@);
    }
    launched
}

} // verus!
