//! The unit of broadcast: an addressed, unmasked message.

use vstd::prelude::*;
use vstd::slice::slice_to_vec;
use vstd::utf8::encode_utf8;

verus! {

/// Who an event is for.
#[derive(Clone, Debug, PartialEq, Eq)]
pub enum EventAddress {
    /// Every registered connection.
    All,
    /// One connection.
    Client(u128),
    /// Several connections, served in list order.
    ClientRange(Vec<u128>),
}

/// The mathematical value of an [`EventAddress`].
pub ghost enum AddressView {
    All,
    Client(u128),
    ClientRange(Seq<u128>),
}

impl View for EventAddress {
    type V = AddressView;

    open spec fn view(&self) -> AddressView {
        match self {
            EventAddress::All => AddressView::All,
            EventAddress::Client(id) => AddressView::Client(*id),
            EventAddress::ClientRange(ids) => AddressView::ClientRange(ids@),
        }
    }
}

/// What an event carries.
#[derive(Clone, Copy, Debug, PartialEq, Eq, Structural)]
pub enum EventKind {
    Text,
    Binary,
    Close,
}

/// Where an event comes from.
#[derive(Clone, Copy, Debug, PartialEq, Eq, Structural)]
pub enum EventSource {
    System,
    Client(u128),
}

/// An application-level message on its way to the hub.
#[derive(Clone, Debug, PartialEq, Eq)]
pub struct Event {
    pub kind: EventKind,
    pub address: EventAddress,
    pub payload: Vec<u8>,
}

/// The mathematical value of an [`Event`].
pub ghost struct EventView {
    pub kind: EventKind,
    pub address: AddressView,
    pub payload: Seq<u8>,
}

impl View for Event {
    type V = EventView;

    open spec fn view(&self) -> EventView {
        EventView { kind: self.kind, address: self.address@, payload: self.payload@ }
    }
}

/// A text event that carries the UTF-8 bytes of `data` to `to`.
pub fn text_event(data: String, to: EventAddress) -> (event: Event)
    ensures
        event.kind == EventKind::Text,
        event.address == to,
        event.payload@ == encode_utf8(data@),
{
    let payload = slice_to_vec(data.as_str().as_bytes());
    Event { kind: EventKind::Text, address: to, payload }
}

} // verus!
