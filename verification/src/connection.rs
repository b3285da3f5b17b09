//! The life of one connection: `Connecting`, `Open`, `Closing`, `Closed`.
//! The caller owns the socket: it decodes frames, hands each to the
//! connection, and carries out what the connection answers.

use uuid::Uuid;
use vstd::prelude::*;
use vstd::slice::slice_to_vec;
use vstd::utf8::{encode_utf8, valid_utf8};
use crate::event::{AddressView, Event, EventAddress, EventKind, EventView};
use crate::frame::{Frame, FrameView};
use crate::opcode::Opcode;
use crate::registry::Registry;
use crate::write::{encode_close_frame, first_byte};

verus! {

/// Where a connection stands in its life.
#[derive(Clone, Copy, Debug, PartialEq, Eq, Structural)]
pub enum ConnectionState {
    /// The upgrade has not completed yet.
    Connecting,
    /// Registered; frames are being read.
    Open,
    /// A close frame came in; the reply is on its way.
    Closing,
    /// Over. Terminal.
    Closed,
}

/// One accepted connection.
#[derive(Clone, Debug, PartialEq, Eq)]
pub struct Connection {
    pub id: u128,
    pub short_id: Vec<u8>,
    pub state: ConnectionState,
}

/// What entering `Open` asks the caller to publish.
#[derive(Clone, Debug, PartialEq, Eq)]
pub struct Opening {
    /// The greeting, for the new connection alone.
    pub welcome: Event,
    /// The announcement of the arrival, for everyone.
    pub announcement: Event,
}

/// What a frame asks the caller to do.
#[derive(Clone, Debug, PartialEq, Eq)]
pub enum Reaction {
    /// Publish the event to the queue and read on.
    Publish(Event),
    /// A text frame that is not UTF-8: report it and read on.
    BadText,
    /// A close frame: write `reply` straight to this connection's own
    /// sink, publish `farewell`, then tear the connection down.
    Close { reply: Vec<u8>, farewell: Event },
    /// An opcode that is not served: tear the connection down.
    Reject(Opcode),
    /// The connection is not open: the frame is dropped.
    Idle,
}

/// The mathematical value of a [`Reaction`].
pub ghost enum ReactionView {
    Publish(EventView),
    BadText,
    Close { reply: Seq<u8>, farewell: EventView },
    Reject(Opcode),
    Idle,
}

impl View for Reaction {
    type V = ReactionView;

    open spec fn view(&self) -> ReactionView {
        match self {
            Reaction::Publish(event) => ReactionView::Publish(event@),
            Reaction::BadText => ReactionView::BadText,
            Reaction::Close { reply, farewell } => ReactionView::Close {
                reply: reply@,
                farewell: farewell@,
            },
            Reaction::Reject(opcode) => ReactionView::Reject(*opcode),
            Reaction::Idle => ReactionView::Idle,
        }
    }
}

/// The ASCII digit of a value below sixteen, in lower case.
pub open spec fn hex_digit(value: nat) -> u8
    recommends
        value < 16,
{
    if value < 10 {
        (0x30 + value) as u8
    } else {
        (0x57 + value) as u8
    }
}

/// A number in lower-case hexadecimal, without leading zeros.
pub open spec fn hex(value: nat) -> Seq<u8>
    decreases value,
{
    if value < 16 {
        seq![hex_digit(value)]
    } else {
        hex(value / 16).push(hex_digit(value % 16))
    }
}

/// The short name of a connection: the first eight hexadecimal digits of
/// its identifier, or all of them where there are fewer.
pub open spec fn short_id_of(id: u128) -> Seq<u8> {
    let digits = hex(id as nat);
    if digits.len() <= 8 {
        digits
    } else {
        digits.take(8)
    }
}

/// The greeting that a new connection receives.
pub open spec fn welcome_event(id: u128) -> EventView {
    EventView {
        kind: EventKind::Text,
        address: AddressView::Client(id),
        payload: encode_utf8("Welcome to chat server!"@),
    }
}

/// The announcement that a connection has arrived.
pub open spec fn joined_event(short_id: Seq<u8>) -> EventView {
    EventView {
        kind: EventKind::Text,
        address: AddressView::All,
        payload: short_id + encode_utf8(" joined the server"@),
    }
}

/// The announcement that a connection is leaving.
pub open spec fn leaving_event(short_id: Seq<u8>) -> EventView {
    EventView {
        kind: EventKind::Text,
        address: AddressView::All,
        payload: short_id + encode_utf8(" leaving the server"@),
    }
}

/// A client's text, relayed to everyone under the sender's short name.
pub open spec fn relayed_event(short_id: Seq<u8>, text: Seq<u8>) -> EventView {
    EventView {
        kind: EventKind::Text,
        address: AddressView::All,
        payload: short_id + encode_utf8(": "@) + text,
    }
}

/// What an open connection answers to a frame. Text that is UTF-8 is
/// relayed to all; text that is not is reported and skipped; a close frame
/// is answered with the close frame and a farewell; every other opcode is
/// refused.
pub open spec fn reaction_to(frame: FrameView, short_id: Seq<u8>) -> ReactionView {
    match frame.opcode {
        Opcode::Text => if valid_utf8(frame.payload) {
            ReactionView::Publish(relayed_event(short_id, frame.payload))
        } else {
            ReactionView::BadText
        },
        Opcode::Close => ReactionView::Close {
            reply: seq![first_byte(Opcode::Close)],
            farewell: leaving_event(short_id),
        },
        other => ReactionView::Reject(other),
    }
}

/// The state of an open connection after a frame: it stays open on text,
/// is closing on a close frame, and is closed on anything else.
pub open spec fn state_after(frame: FrameView) -> ConnectionState {
    match frame.opcode {
        Opcode::Text => ConnectionState::Open,
        Opcode::Close => ConnectionState::Closing,
        _ => ConnectionState::Closed,
    }
}

/// Calls `Uuid::new_v4` and `Uuid::to_u128_le` of the `uuid` crate: a
/// random 128-bit identifier. Nothing is promised of its value. The call
/// fails only where the system has no source of randomness.
#[verifier::external_body]
fn random_id() -> u128 {
    Uuid::new_v4().to_u128_le()
}

/// Calls `std::str::from_utf8`. Trusted: it accepts exactly the byte
/// sequences that are valid UTF-8.
#[verifier::external_body]
fn is_utf8(bytes: &[u8]) -> (valid: bool)
    ensures
        valid == valid_utf8(bytes@),
{
    std::str::from_utf8(bytes).is_ok()
}

proof fn lemma_hex_len(value: nat)
    ensures
        hex(value).len() >= 1,
        value < 0x1_0000_0000 ==> hex(value).len() <= 8,
        value >= 0x1000_0000 ==> hex(value).len() >= 8,
    decreases value,
{
    reveal_with_fuel(hex, 9);
    if value >= 16 {
        lemma_hex_len(value / 16);
        let v8 = value / 16 / 16 / 16 / 16 / 16 / 16 / 16;
        if value >= 0x1000_0000 {
            assert(v8 >= 1);
            lemma_hex_len(v8);
        }
    }
}

proof fn lemma_short_id_step(value: u128)
    requires
        value >= 0x1_0000_0000,
    ensures
        short_id_of(value) == short_id_of(value / 16),
{
    let inner = hex((value / 16) as nat);
    lemma_hex_len((value / 16) as nat);
    assert(hex(value as nat) == inner.push(hex_digit((value % 16) as nat)));
    assert(hex(value as nat).take(8) =~= inner.take(8));
    assert(inner.len() == 8 ==> inner.take(8) =~= inner);
}

fn push_hex(value: u128, out: &mut Vec<u8>)
    ensures
        final(out)@ == old(out)@ + hex(value as nat),
    decreases value,
{
    if value >= 16 {
        push_hex(value / 16, out);
    }
    let digit: u8 = (value % 16) as u8;
    if digit < 10 {
        out.push(0x30 + digit);
    } else {
        out.push(0x57 + digit);
    }
    assert(out@ =~= old(out)@ + hex(value as nat));
}

/// The short name of a connection, in ASCII.
pub fn short_id(id: u128) -> (name: Vec<u8>)
    ensures
        name@ == short_id_of(id),
{
    let mut top: u128 = id;
    while top >= 0x1_0000_0000
        invariant
            short_id_of(top) == short_id_of(id),
        decreases top,
    {
        proof {
            lemma_short_id_step(top);
        }
        top = top / 16;
    }
    let mut name: Vec<u8> = Vec::new();
    push_hex(top, &mut name);
    proof {
        lemma_hex_len(top as nat);
        assert(name@ =~= hex(top as nat));
    }
    name
}

fn labelled(short_id: &Vec<u8>, label: &str) -> (payload: Vec<u8>)
    ensures
        payload@ == short_id@ + encode_utf8(label@),
{
    let mut payload = short_id.clone();
    payload.extend_from_slice(label.as_bytes());
    payload
}

impl Connection {
    /// A connection with the given identifier, not yet open.
    pub fn new(id: u128) -> (connection: Connection)
        ensures
            connection.id == id,
            connection.short_id@ == short_id_of(id),
            connection.state == ConnectionState::Connecting,
    {
        Connection { id, short_id: short_id(id), state: ConnectionState::Connecting }
    }

    /// A connection with a fresh random identifier, not yet open.
    pub fn accept() -> (connection: Connection)
        ensures
            connection.short_id@ == short_id_of(connection.id),
            connection.state == ConnectionState::Connecting,
    {
        Connection::new(random_id())
    }

    /// Enters `Open`: registers the sink under the connection's identifier
    /// and says what to publish. Where the identifier is already registered
    /// the connection is closed, the registry stays as it is and the sink
    /// comes back. A connection that is not `Connecting` stays as it is.
    pub fn open<S>(&mut self, clients: &mut Registry<S>, sink: S) -> (outcome: Result<Opening, S>)
        requires
            old(clients).wf(),
        ensures
            final(clients).wf(),
            final(self).id == old(self).id,
            final(self).short_id == old(self).short_id,
            match outcome {
                Ok(opening) => {
                    &&& old(self).state == ConnectionState::Connecting
                    &&& !old(clients)@.contains_key(old(self).id)
                    &&& final(self).state == ConnectionState::Open
                    &&& final(clients)@ == old(clients)@.insert(old(self).id, sink)
                    &&& opening.welcome@ == welcome_event(old(self).id)
                    &&& opening.announcement@ == joined_event(old(self).short_id@)
                },
                Err(back) => {
                    &&& old(self).state != ConnectionState::Connecting || old(
                        clients,
                    )@.contains_key(old(self).id)
                    &&& back == sink
                    &&& final(clients)@ == old(clients)@
                    &&& final(self).state == if old(self).state == ConnectionState::Connecting {
                        ConnectionState::Closed
                    } else {
                        old(self).state
                    }
                },
            },
    {
        match self.state {
            ConnectionState::Connecting => {},
            _ => {
                return Err(sink);
            },
        }
        match clients.insert(self.id, sink) {
            Ok(()) => {
                self.state = ConnectionState::Open;
                let welcome = Event {
                    kind: EventKind::Text,
                    address: EventAddress::Client(self.id),
                    payload: slice_to_vec("Welcome to chat server!".as_bytes()),
                };
                let announcement = Event {
                    kind: EventKind::Text,
                    address: EventAddress::All,
                    payload: labelled(&self.short_id, " joined the server"),
                };
                Ok(Opening { welcome, announcement })
            },
            Err(back) => {
                self.state = ConnectionState::Closed;
                Err(back)
            },
        }
    }

    /// Handles one decoded frame. Only an open connection reacts; on any
    /// other the frame is dropped and nothing changes.
    pub fn on_frame(&mut self, frame: &Frame) -> (reaction: Reaction)
        ensures
            final(self).id == old(self).id,
            final(self).short_id == old(self).short_id,
            old(self).state == ConnectionState::Open ==> reaction@ == reaction_to(
                frame@,
                old(self).short_id@,
            ) && final(self).state == state_after(frame@),
            old(self).state != ConnectionState::Open ==> reaction@ == ReactionView::Idle
                && final(self).state == old(self).state,
    {
        match self.state {
            ConnectionState::Open => {},
            _ => {
                return Reaction::Idle;
            },
        }
        match frame.opcode {
            Opcode::Text => {
                if is_utf8(frame.payload.as_slice()) {
                    let mut payload = labelled(&self.short_id, ": ");
                    payload.extend_from_slice(frame.payload.as_slice());
                    assert(payload@ == relayed_event(self.short_id@, frame.payload@).payload);
                    Reaction::Publish(
                        Event { kind: EventKind::Text, address: EventAddress::All, payload },
                    )
                } else {
                    Reaction::BadText
                }
            },
            Opcode::Close => {
                self.state = ConnectionState::Closing;
                let farewell = Event {
                    kind: EventKind::Text,
                    address: EventAddress::All,
                    payload: labelled(&self.short_id, " leaving the server"),
                };
                Reaction::Close { reply: encode_close_frame(), farewell }
            },
            other => {
                self.state = ConnectionState::Closed;
                Reaction::Reject(other)
            },
        }
    }

    /// A read, a write or a decode failed: the connection is closed.
    pub fn on_error(&mut self)
        ensures
            final(self).id == old(self).id,
            final(self).short_id == old(self).short_id,
            final(self).state == ConnectionState::Closed,
    {
        self.state = ConnectionState::Closed;
    }

    /// Ends the connection whatever its state: it is closed, and its entry,
    /// if it has one, leaves the registry and is handed out. A second call
    /// finds nothing to remove and changes nothing.
    pub fn teardown<S>(&mut self, clients: &mut Registry<S>) -> (sink: Option<S>)
        requires
            old(clients).wf(),
        ensures
            final(clients).wf(),
            final(self).id == old(self).id,
            final(self).short_id == old(self).short_id,
            final(self).state == ConnectionState::Closed,
            final(clients)@ == old(clients)@.remove(old(self).id),
            sink == (if old(clients)@.contains_key(old(self).id) {
                Some(old(clients)@[old(self).id])
            } else {
                None
            }),
    {
        self.state = ConnectionState::Closed;
        clients.remove(self.id)
    }
}

/// Tearing a connection down twice leaves the registry as tearing it down
/// once does.
pub proof fn lemma_teardown_idempotent<S>(clients: Map<u128, S>, id: u128)
    ensures
        clients.remove(id).remove(id) == clients.remove(id),
        !clients.remove(id).contains_key(id),
{
    assert(clients.remove(id).remove(id) =~= clients.remove(id));
}

} // verus!
