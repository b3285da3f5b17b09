//! Encoding the frames that the server sends: complete, unmasked, one frame
//! per message.

use vstd::prelude::*;
use crate::consts::FIN_MASK;
use crate::encoding::{encode_length, length_field};
use crate::event::EventKind;
use crate::opcode::Opcode;

verus! {

/// The first header byte of a final frame with the given opcode.
pub open spec fn first_byte(opcode: Opcode) -> u8 {
    FIN_MASK | opcode.code()
}

/// The bytes of a complete unmasked frame: the first byte, then the length
/// field, then the payload as it is.
pub open spec fn message(opcode: Opcode, payload: Seq<u8>) -> Seq<u8> {
    seq![first_byte(opcode)] + length_field(payload.len()) + payload
}

fn encode_message(opcode: Opcode, msg: &[u8]) -> (frame: Vec<u8>)
    ensures
        frame@ == message(opcode, msg@),
{
    let mut frame: Vec<u8> = Vec::new();
    frame.push(opcode.encode() | FIN_MASK);
    let length = encode_length(msg.len());
    frame.extend_from_slice(length.as_slice());
    frame.extend_from_slice(msg);
    let ghost code = opcode.code();
    assert(code | 0x80u8 == 0x80u8 | code) by (bit_vector);
    assert(frame@ =~= message(opcode, msg@));
    frame
}

/// The close frame: a single byte, `fin` and the close opcode, with no
/// length field and no payload.
pub fn encode_close_frame() -> (frame: Vec<u8>)
    ensures
        frame@ == seq![first_byte(Opcode::Close)],
        frame@ == seq![0x88u8],
{
    let mut frame: Vec<u8> = Vec::new();
    frame.push(Opcode::Close.encode() | FIN_MASK);
    assert(0x8u8 | 0x80u8 == 0x88u8) by (bit_vector);
    assert(0x80u8 | 0x8u8 == 0x88u8) by (bit_vector);
    assert(frame@ =~= seq![0x88u8]);
    frame
}

/// One complete text frame that carries `msg`.
pub fn encode_text(msg: &[u8]) -> (frame: Vec<u8>)
    ensures
        frame@ == message(Opcode::Text, msg@),
{
    encode_message(Opcode::Text, msg)
}

/// One complete binary frame that carries `msg`.
pub fn encode_binary(msg: &[u8]) -> (frame: Vec<u8>)
    ensures
        frame@ == message(Opcode::Binary, msg@),
{
    encode_message(Opcode::Binary, msg)
}

/// The bytes that stand for an event of the given kind on the wire: a text
/// or binary frame around the payload, or the bare close frame, which
/// carries no payload.
pub open spec fn encoded(kind: EventKind, payload: Seq<u8>) -> Seq<u8> {
    match kind {
        EventKind::Text => message(Opcode::Text, payload),
        EventKind::Binary => message(Opcode::Binary, payload),
        EventKind::Close => seq![first_byte(Opcode::Close)],
    }
}

/// Encodes a message by its kind, ready to be written to a connection.
pub fn encode_event(kind: EventKind, payload: &[u8]) -> (frame: Vec<u8>)
    ensures
        frame@ == encoded(kind, payload@),
{
    match kind {
        EventKind::Text => encode_text(payload),
        EventKind::Binary => encode_binary(payload),
        EventKind::Close => encode_close_frame(),
    }
}

} // verus!
