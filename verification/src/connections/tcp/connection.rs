//! The per-peer transport: how a message is framed for one peer, what the
//! read loop of a peer does with each thing that comes off its socket, and
//! the liveness flag that keeps a peer from getting two read loops.

use vstd::prelude::*;
use crate::NetworkSide;
use crate::connections::{BytesOptions, OrderOptions};
use crate::connections::tcp::reader_writer::{
    decoded,
    encoded,
    length_of,
    representable,
    value_for,
    lemma_round_trip,
    lemma_stated_length,
    read_from_settings,
    read_value_to_usize,
    value_from_number,
    write_from_settings,
};
use crate::identifiers::{fresh_peer_identifier, is_random_identifier};

verus! {

/// The address of a host: four octets, or one 128-bit number.
#[derive(PartialEq, Eq, Structural, Debug, Clone, Copy)]
pub enum IpAddress {
    V4(u8, u8, u8, u8),
    V6(u128),
}

/// The address of a socket: a host and a port.
#[derive(PartialEq, Eq, Structural, Debug, Clone, Copy)]
pub struct SocketAddress {
    pub address: IpAddress,
    pub port: u16,
}

/// One accepted or connected peer, as the tick-driven side of a connection
/// sees it.
pub struct TcpConnection {
    pub connection_name: String,
    pub socket_addr: SocketAddress,
    pub network_side: NetworkSide,
    pub uuid: Option<u128>,
    pub bytes: BytesOptions,
    pub order: OrderOptions,
    pub listening: bool,
}

/// What the read loop of a peer waits for.
#[derive(PartialEq, Eq, Structural, Debug, Clone, Copy)]
pub enum ReadPhase {
    /// The length prefix of the next frame.
    Prefix,
    /// The payload of the frame whose prefix stated this length.
    Payload(usize),
    /// Nothing: the loop has ended.
    Closed,
}

/// What came of the read that the loop was waiting for.
pub enum ReadEvent {
    /// The cancellation signal won the race against the read.
    Cancelled,
    /// The read ended with these bytes.
    Received(Vec<u8>),
    /// The read ended with an error.
    Failed,
}

/// What the read loop does after an event.
pub enum ReadAction {
    /// Go on with the next read.
    Continue,
    /// Hand this payload to dispatch, then go on with the next read.
    Deliver(Vec<u8>),
    /// Emit the down-signal and end.
    SignalDown,
    /// End without a signal.
    Stop,
}

/// A [`ReadEvent`] with its bytes as a sequence.
pub enum ReadEventView {
    Cancelled,
    Received(Seq<u8>),
    Failed,
}

/// A [`ReadAction`] with its bytes as a sequence.
pub enum ReadActionView {
    Continue,
    Deliver(Seq<u8>),
    SignalDown,
    Stop,
}

impl View for ReadEvent {
    type V = ReadEventView;

    open spec fn view(&self) -> ReadEventView {
        match self {
            ReadEvent::Cancelled => ReadEventView::Cancelled,
            ReadEvent::Received(bytes) => ReadEventView::Received(bytes@),
            ReadEvent::Failed => ReadEventView::Failed,
        }
    }
}

impl View for ReadAction {
    type V = ReadActionView;

    open spec fn view(&self) -> ReadActionView {
        match self {
            ReadAction::Continue => ReadActionView::Continue,
            ReadAction::Deliver(payload) => ReadActionView::Deliver(payload@),
            ReadAction::SignalDown => ReadActionView::SignalDown,
            ReadAction::Stop => ReadActionView::Stop,
        }
    }
}

/// One frame: the prefix that states the payload's length, then the payload.
pub open spec fn frame(payload: Seq<u8>, bytes: BytesOptions, order: OrderOptions) -> Seq<u8> {
    encoded(value_for(payload.len(), bytes), order) + payload
}

/// The byte stream that sending `payloads` in order puts on the wire.
pub open spec fn stream_of(
    payloads: Seq<Seq<u8>>,
    bytes: BytesOptions,
    order: OrderOptions,
) -> Seq<u8>
    decreases payloads.len(),
{
    if payloads.len() == 0 {
        Seq::empty()
    } else {
        frame(payloads[0], bytes, order) + stream_of(payloads.drop_first(), bytes, order)
    }
}

/// The payloads that a read loop delivers, in order, from the bytes `stream`
/// that came in before the socket went quiet: one for each whole frame, and
/// nothing for a frame that was cut short.
pub open spec fn delivered(stream: Seq<u8>, bytes: BytesOptions, order: OrderOptions) -> Seq<
    Seq<u8>,
>
    decreases stream.len(),
{
    let width = bytes.width() as int;
    if stream.len() < width {
        Seq::empty()
    } else {
        let stated = length_of(decoded(stream.subrange(0, width), bytes, order)) as int;
        if stream.len() - width < stated {
            Seq::empty()
        } else {
            seq![stream.subrange(width, width + stated)] + delivered(
                stream.subrange(width + stated, stream.len() as int),
                bytes,
                order,
            )
        }
    }
}

/// How many bytes the loop reads next; `None` once it has ended.
pub open spec fn wanted_bytes(phase: ReadPhase, bytes: BytesOptions) -> Option<usize> {
    match phase {
        ReadPhase::Prefix => Some(bytes.width() as usize),
        ReadPhase::Payload(length) => Some(length),
        ReadPhase::Closed => None,
    }
}

/// The phase after `event` and what the loop does about it.
///
/// A loop that has ended stays ended and does nothing more. Cancellation
/// ends the loop without a signal. An error, a prefix that was cut short and
/// a payload that is not of the stated length each end the loop with one
/// down-signal. A whole prefix makes the loop wait for the payload it
/// states; a whole payload is delivered, and the loop waits for the next
/// prefix.
pub open spec fn read_step_spec(
    phase: ReadPhase,
    event: ReadEventView,
    bytes: BytesOptions,
    order: OrderOptions,
) -> (ReadPhase, ReadActionView) {
    match phase {
        ReadPhase::Closed => (ReadPhase::Closed, ReadActionView::Stop),
        ReadPhase::Prefix => match event {
            ReadEventView::Cancelled => (ReadPhase::Closed, ReadActionView::Stop),
            ReadEventView::Failed => (ReadPhase::Closed, ReadActionView::SignalDown),
            ReadEventView::Received(prefix) => if prefix.len() == bytes.width() {
                (
                    ReadPhase::Payload(length_of(decoded(prefix, bytes, order))),
                    ReadActionView::Continue,
                )
            } else {
                (ReadPhase::Closed, ReadActionView::SignalDown)
            },
        },
        ReadPhase::Payload(length) => match event {
            ReadEventView::Cancelled => (ReadPhase::Closed, ReadActionView::Stop),
            ReadEventView::Failed => (ReadPhase::Closed, ReadActionView::SignalDown),
            ReadEventView::Received(payload) => if payload.len() == length {
                (ReadPhase::Prefix, ReadActionView::Deliver(payload))
            } else {
                (ReadPhase::Closed, ReadActionView::SignalDown)
            },
        },
    }
}

/// The sequences that the vectors of `payloads` hold.
pub open spec fn views(payloads: Seq<Vec<u8>>) -> Seq<Seq<u8>> {
    Seq::new(payloads.len(), |i: int| payloads[i]@)
}

/// A whole frame at the head of a stream is delivered, and the loop goes on
/// with what follows it.
pub proof fn lemma_delivered_frame(
    payload: Seq<u8>,
    rest: Seq<u8>,
    bytes: BytesOptions,
    order: OrderOptions,
)
    requires
        payload.len() <= usize::MAX,
        representable(payload.len(), bytes),
    ensures
        delivered(frame(payload, bytes, order) + rest, bytes, order) == seq![payload] + delivered(
            rest,
            bytes,
            order,
        ),
{
    let value = value_for(payload.len(), bytes);
    let prefix = encoded(value, order);
    let stream = frame(payload, bytes, order) + rest;
    let width = bytes.width() as int;
    lemma_stated_length(payload.len(), bytes);
    lemma_round_trip(value, order);
    assert(stream.subrange(0, width) =~= prefix);
    assert(stream.subrange(width, width + payload.len()) =~= payload);
    assert(stream.subrange(width + payload.len(), stream.len() as int) =~= rest);
}

/// First in, first out: the payloads sent on one peer are delivered on the
/// other side whole, each once, and in the order in which they were sent.
pub proof fn lemma_fifo(payloads: Seq<Seq<u8>>, bytes: BytesOptions, order: OrderOptions)
    requires
        forall|i: int|
            0 <= i < payloads.len() ==> (#[trigger] payloads[i]).len() <= usize::MAX
                && representable(payloads[i].len(), bytes),
    ensures
        delivered(stream_of(payloads, bytes, order), bytes, order) == payloads,
    decreases payloads.len(),
{
    if payloads.len() == 0 {
        assert(delivered(Seq::<u8>::empty(), bytes, order) =~= payloads);
    } else {
        let rest = payloads.drop_first();
        assert forall|i: int| 0 <= i < rest.len() implies (#[trigger] rest[i]).len() <= usize::MAX
            && representable(rest[i].len(), bytes) by {
            assert(rest[i] == payloads[i + 1]);
        }
        lemma_fifo(rest, bytes, order);
        lemma_delivered_frame(payloads[0], stream_of(rest, bytes, order), bytes, order);
        assert(seq![payloads[0]] + rest =~= payloads);
    }
}

/// Nothing is delivered for a frame that was cut short: when the stream
/// ends inside a frame, what is delivered is what was sent before it.
pub proof fn lemma_partial_frame(
    payloads: Seq<Seq<u8>>,
    last: Seq<u8>,
    kept: int,
    bytes: BytesOptions,
    order: OrderOptions,
)
    requires
        forall|i: int|
            0 <= i < payloads.len() ==> (#[trigger] payloads[i]).len() <= usize::MAX
                && representable(payloads[i].len(), bytes),
        last.len() <= usize::MAX,
        representable(last.len(), bytes),
        0 <= kept < frame(last, bytes, order).len(),
    ensures
        delivered(
            stream_of(payloads, bytes, order) + frame(last, bytes, order).subrange(0, kept),
            bytes,
            order,
        ) == payloads,
    decreases payloads.len(),
{
    let cut = frame(last, bytes, order).subrange(0, kept);
    if payloads.len() == 0 {
        let value = value_for(last.len(), bytes);
        let width = bytes.width() as int;
        lemma_stated_length(last.len(), bytes);
        lemma_round_trip(value, order);
        assert(stream_of(payloads, bytes, order) + cut =~= cut);
        if cut.len() >= width {
            assert(cut.subrange(0, width) =~= encoded(value, order));
        }
        assert(delivered(cut, bytes, order) =~= payloads);
    } else {
        let rest = payloads.drop_first();
        assert forall|i: int| 0 <= i < rest.len() implies (#[trigger] rest[i]).len() <= usize::MAX
            && representable(rest[i].len(), bytes) by {
            assert(rest[i] == payloads[i + 1]);
        }
        lemma_partial_frame(rest, last, kept, bytes, order);
        lemma_delivered_frame(payloads[0], stream_of(rest, bytes, order) + cut, bytes, order);
        assert(stream_of(payloads, bytes, order) + cut =~= frame(payloads[0], bytes, order) + (
        stream_of(rest, bytes, order) + cut));
        assert(seq![payloads[0]] + rest =~= payloads);
    }
}

/// What a read loop that starts in `phase` does, event after event, about
/// the events listed.
pub open spec fn read_run(
    phase: ReadPhase,
    events: Seq<ReadEventView>,
    bytes: BytesOptions,
    order: OrderOptions,
) -> Seq<ReadActionView>
    decreases events.len(),
{
    if events.len() == 0 {
        Seq::empty()
    } else {
        let step = read_step_spec(phase, events[0], bytes, order);
        seq![step.1] + read_run(step.0, events.drop_first(), bytes, order)
    }
}

/// A read loop answers each event with one action.
pub proof fn lemma_read_run_len(
    phase: ReadPhase,
    events: Seq<ReadEventView>,
    bytes: BytesOptions,
    order: OrderOptions,
)
    ensures
        read_run(phase, events, bytes, order).len() == events.len(),
    decreases events.len(),
{
    if events.len() > 0 {
        let step = read_step_spec(phase, events[0], bytes, order);
        lemma_read_run_len(step.0, events.drop_first(), bytes, order);
    }
}

/// A read loop that has ended does nothing, whatever comes.
pub proof fn lemma_closed_run(
    events: Seq<ReadEventView>,
    bytes: BytesOptions,
    order: OrderOptions,
    at: int,
)
    requires
        0 <= at < events.len(),
    ensures
        read_run(ReadPhase::Closed, events, bytes, order)[at] == ReadActionView::Stop,
    decreases events.len(),
{
    lemma_read_run_len(ReadPhase::Closed, events.drop_first(), bytes, order);
    if at > 0 {
        lemma_closed_run(events.drop_first(), bytes, order, at - 1);
    }
}

/// One down-signal: once a read loop has emitted the down-signal, or has
/// ended without one, it does nothing more. So it emits the down-signal at
/// most once, and delivers nothing after it.
pub proof fn lemma_ended_stays_ended(
    phase: ReadPhase,
    events: Seq<ReadEventView>,
    bytes: BytesOptions,
    order: OrderOptions,
    first: int,
    later: int,
)
    requires
        0 <= first < later < events.len(),
        read_run(phase, events, bytes, order)[first] == ReadActionView::SignalDown || read_run(
            phase,
            events,
            bytes,
            order,
        )[first] == ReadActionView::Stop,
    ensures
        read_run(phase, events, bytes, order)[later] == ReadActionView::Stop,
    decreases first,
{
    let step = read_step_spec(phase, events[0], bytes, order);
    let rest = events.drop_first();
    lemma_read_run_len(step.0, rest, bytes, order);
    if first == 0 {
        assert(step.0 == ReadPhase::Closed);
        lemma_closed_run(rest, bytes, order, later - 1);
    } else {
        lemma_ended_stays_ended(step.0, rest, bytes, order, first - 1, later - 1);
    }
}

/// The bytes of `source` from `from` up to `to`.
pub(crate) fn copy_range(source: &[u8], from: usize, to: usize) -> (out: Vec<u8>)
    requires
        from <= to <= source@.len(),
    ensures
        out@ == source@.subrange(from as int, to as int),
{
    let mut out: Vec<u8> = Vec::new();
    let mut at: usize = from;
    while at < to
        invariant
            from <= at <= to <= source@.len(),
            out@ == source@.subrange(from as int, at as int),
        decreases to - at,
    {
        out.push(source[at]);
        at = at + 1;
        assert(out@ =~= source@.subrange(from as int, at as int));
    }
    out
}

/// How many bytes the loop reads next; `None` once it has ended.
pub fn wanted(phase: ReadPhase, bytes: &BytesOptions) -> (count: Option<usize>)
    ensures
        count == wanted_bytes(phase, *bytes),
{
    match phase {
        ReadPhase::Prefix => Some(bytes.byte_width()),
        ReadPhase::Payload(length) => Some(length),
        ReadPhase::Closed => None,
    }
}

/// One turn of a peer's read loop: the phase after `event`, and what the
/// loop does about it.
pub fn read_step(phase: ReadPhase, event: ReadEvent, bytes: &BytesOptions, order: &OrderOptions) -> (next:
    (ReadPhase, ReadAction))
    ensures
        next.0 == read_step_spec(phase, event@, *bytes, *order).0,
        next.1@ == read_step_spec(phase, event@, *bytes, *order).1,
{
    match phase {
        ReadPhase::Closed => (ReadPhase::Closed, ReadAction::Stop),
        ReadPhase::Prefix => match event {
            ReadEvent::Cancelled => (ReadPhase::Closed, ReadAction::Stop),
            ReadEvent::Failed => (ReadPhase::Closed, ReadAction::SignalDown),
            ReadEvent::Received(prefix) => match read_from_settings(
                prefix.as_slice(),
                bytes,
                order,
            ) {
                Some(value) => (
                    ReadPhase::Payload(read_value_to_usize(value)),
                    ReadAction::Continue,
                ),
                None => (ReadPhase::Closed, ReadAction::SignalDown),
            },
        },
        ReadPhase::Payload(length) => match event {
            ReadEvent::Cancelled => (ReadPhase::Closed, ReadAction::Stop),
            ReadEvent::Failed => (ReadPhase::Closed, ReadAction::SignalDown),
            ReadEvent::Received(payload) => if payload.len() == length {
                (ReadPhase::Prefix, ReadAction::Deliver(payload))
            } else {
                (ReadPhase::Closed, ReadAction::SignalDown)
            },
        },
    }
}

/// Frames `payload` in the format and byte order given: the prefix that
/// states its length, then the payload itself. A payload whose length the
/// format does not hold is the caller's error.
pub fn frame_message(payload: &Vec<u8>, bytes: BytesOptions, order: OrderOptions) -> (wire: Vec<
    u8,
>)
    requires
        representable(payload@.len(), bytes),
    ensures
        wire@ == frame(payload@, bytes, order),
{
    let prefix = value_from_number(payload.len(), bytes);
    let mut wire = write_from_settings(&prefix, &order);
    let ghost head = wire@;
    let mut at: usize = 0;
    while at < payload.len()
        invariant
            at <= payload.len(),
            wire@ == head + payload@.subrange(0, at as int),
        decreases payload.len() - at,
    {
        wire.push(payload[at]);
        at = at + 1;
        assert(wire@ =~= head + payload@.subrange(0, at as int));
    }
    assert(payload@.subrange(0, at as int) =~= payload@);
    wire
}

/// Runs the read loop over bytes that have already come in, and returns the
/// payloads it delivers, in order. Bytes after the last whole frame are left
/// alone.
pub fn read_frames(stream: &[u8], bytes: &BytesOptions, order: &OrderOptions) -> (payloads: Vec<
    Vec<u8>,
>)
    ensures
        views(payloads@) == delivered(stream@, *bytes, *order),
{
    let mut payloads: Vec<Vec<u8>> = Vec::new();
    let mut at: usize = 0;
    let width: usize = bytes.byte_width();
    let mut open: bool = true;
    assert(stream@.subrange(0, stream@.len() as int) =~= stream@);
    assert(views(payloads@) + delivered(stream@, *bytes, *order) =~= delivered(
        stream@,
        *bytes,
        *order,
    ));
    while open
        invariant
            at <= stream@.len(),
            width == bytes.width(),
            open ==> views(payloads@) + delivered(
                stream@.subrange(at as int, stream@.len() as int),
                *bytes,
                *order,
            ) == delivered(stream@, *bytes, *order),
            !open ==> views(payloads@) == delivered(stream@, *bytes, *order),
        decreases (if open { 1int } else { 0int }), stream@.len() - at,
    {
        let ghost rest = stream@.subrange(at as int, stream@.len() as int);
        let ghost before = views(payloads@);
        if stream.len() - at < width {
            open = false;
            assert(before + Seq::<Seq<u8>>::empty() =~= before);
        } else {
            let prefix = copy_range(stream, at, at + width);
            assert(prefix@ =~= rest.subrange(0, width as int));
            let (phase, _) = read_step(ReadPhase::Prefix, ReadEvent::Received(prefix), bytes, order);
            match phase {
                ReadPhase::Payload(stated) => {
                    if stream.len() - at - width < stated {
                        open = false;
                        assert(before + Seq::<Seq<u8>>::empty() =~= before);
                    } else {
                        let body = copy_range(stream, at + width, at + width + stated);
                        assert(body@ =~= rest.subrange(width as int, width + stated));
                        let (_, action) = read_step(phase, ReadEvent::Received(body), bytes, order);
                        match action {
                            ReadAction::Deliver(payload) => {
                                payloads.push(payload);
                                assert(views(payloads@) =~= before + seq![payload@]);
                                assert(rest.subrange(width + stated, rest.len() as int)
                                    =~= stream@.subrange(
                                    at + width + stated,
                                    stream@.len() as int,
                                ));
                                assert((before + seq![payload@]) + delivered(
                                    rest.subrange(width + stated, rest.len() as int),
                                    *bytes,
                                    *order,
                                ) =~= before + delivered(rest, *bytes, *order));
                                at = at + width + stated;
                            },
                            _ => {
                                open = false;
                            },
                        }
                    }
                },
                _ => {
                    open = false;
                },
            }
        }
    }
    payloads
}

impl TcpConnection {
    /// Whether this peer is `before` but for its liveness flag.
    pub open spec fn same_but_listening(self, before: TcpConnection) -> bool {
        &&& self.connection_name == before.connection_name
        &&& self.socket_addr == before.socket_addr
        &&& self.network_side == before.network_side
        &&& self.uuid == before.uuid
        &&& self.bytes == before.bytes
        &&& self.order == before.order
    }

    /// A peer that has just been accepted (server side) or connected (client
    /// side). A peer on the server side gets a fresh random identifier; one
    /// on the client side has none until the server announces it. No read
    /// loop is attached yet.
    pub fn new(
        connection_name: String,
        socket_addr: SocketAddress,
        network_side: NetworkSide,
        bytes: BytesOptions,
        order: OrderOptions,
    ) -> (peer: TcpConnection)
        ensures
            peer.connection_name == connection_name,
            peer.socket_addr == socket_addr,
            peer.network_side == network_side,
            peer.bytes == bytes,
            peer.order == order,
            !peer.listening,
            peer.uuid is Some <==> network_side == NetworkSide::Server,
            peer.uuid matches Some(id) ==> is_random_identifier(id),
    {
        let uuid = match network_side {
            NetworkSide::Server => Some(fresh_peer_identifier()),
            NetworkSide::Client => None,
        };
        TcpConnection {
            connection_name,
            socket_addr,
            network_side,
            uuid,
            bytes,
            order,
            listening: false,
        }
    }

    /// Marks the peer as having its read loop attached. Returns whether the
    /// loop is to be started now: it is unless one was attached before.
    pub fn start_listen_server(&mut self) -> (attach: bool)
        ensures
            attach == !old(self).listening,
            final(self).listening,
            final(self).same_but_listening(*old(self)),
    {
        let attach = !self.listening;
        self.listening = true;
        attach
    }

    /// Whether a payload of `length` bytes can be framed for this peer.
    pub fn can_send(&self, length: usize) -> (held: bool)
        ensures
            held == representable(length as nat, self.bytes),
    {
        crate::connections::tcp::reader_writer::fits(length, self.bytes)
    }

    /// The bytes to write to this peer for an encoded message: its frame in
    /// the peer's format and byte order.
    pub fn send_client_message(&self, payload: &Vec<u8>) -> (wire: Vec<u8>)
        requires
            representable(payload@.len(), self.bytes),
        ensures
            wire@ == frame(payload@, self.bytes, self.order),
    {
        frame_message(payload, self.bytes, self.order)
    }
}

} // verus!
