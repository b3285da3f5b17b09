//! What is written can be read back: the laws that tie the encoder to the
//! decoder.

use vstd::prelude::*;
use crate::consts::{has_bits, MASKED_MASK};
use crate::encoding::{be16, be64, length_field, lemma_be16_value, lemma_be64_value};
use crate::frame::{FrameView, Headers};
use crate::mask::{lemma_mask_twice, masked};
use crate::opcode::{lemma_decode_encode, Opcode};
use crate::read::{
    complete, first_frame, frame_len, header_len, length7, missing, payload_len,
};
use crate::write::{first_byte, message};

verus! {

/// The bytes of an unmasked frame with an arbitrary first header byte.
pub open spec fn unmasked_frame(first: u8, payload: Seq<u8>) -> Seq<u8> {
    seq![first] + length_field(payload.len()) + payload
}

/// The bytes of a masked frame, as a client sends it: the mask flag is set
/// in the length field's first byte, the key follows the length field, and
/// the payload is masked with the key.
pub open spec fn masked_frame(first: u8, key: Seq<u8>, payload: Seq<u8>) -> Seq<u8>
    recommends
        key.len() == 4,
{
    let field = length_field(payload.len());
    seq![first] + field.update(0, field[0] | MASKED_MASK) + key + masked(payload, key)
}

proof fn lemma_length_byte(value: u8)
    requires
        value <= 127,
    ensures
        length7(value) == value,
        !has_bits(value, MASKED_MASK),
        length7(value | MASKED_MASK) == value,
        has_bits(value | MASKED_MASK, MASKED_MASK),
{
    assert(value <= 127 ==> value & 0x7Fu8 == value) by (bit_vector);
    assert(value <= 127 ==> value & 0x80u8 != 0x80u8) by (bit_vector);
    assert(value <= 127 ==> (value | 0x80u8) & 0x7Fu8 == value) by (bit_vector);
    assert((value | 0x80u8) & 0x80u8 == 0x80u8) by (bit_vector);
}

/// Reading an unmasked frame gives its payload back, whatever its length and
/// whatever follows it: the frame found is whole, ends where the encoded
/// frame ends, carries the flags and opcode of the first byte, and is not
/// masked.
pub proof fn lemma_read_unmasked(first: u8, payload: Seq<u8>, rest: Seq<u8>)
    requires
        payload.len() <= u64::MAX,
    ensures
        complete(unmasked_frame(first, payload) + rest),
        frame_len(unmasked_frame(first, payload) + rest) == unmasked_frame(first, payload).len(),
        first_frame(unmasked_frame(first, payload) + rest) == (FrameView {
            headers: Headers { mask: false, ..Headers::of_bytes(first, 0) },
            opcode: Opcode::of_byte(first),
            payload,
        }),
        (unmasked_frame(first, payload) + rest).skip(
            unmasked_frame(first, payload).len() as int,
        ) == rest,
{
    let length = payload.len();
    let field = length_field(length);
    let bytes = unmasked_frame(first, payload) + rest;
    lemma_length_byte(field[0]);
    assert(bytes[0] == first);
    assert(bytes[1] == field[0]);
    if length <= 125 {
    } else if length <= 0xFFFF {
        lemma_be16_value(length);
        assert(bytes.subrange(2, 4) =~= be16(length));
    } else {
        lemma_be64_value(length);
        assert(bytes.subrange(2, 10) =~= be64(length));
    }
    assert(payload_len(bytes) == length);
    let start = header_len(bytes[1]) as int;
    assert(start == 1 + field.len());
    assert(bytes.subrange(start, start + length) =~= payload);
    assert(bytes.skip(start + length) =~= rest);
}

/// Reading a masked frame recovers the payload that was masked, whatever
/// the key, its length and whatever follows it.
pub proof fn lemma_read_masked(first: u8, key: Seq<u8>, payload: Seq<u8>, rest: Seq<u8>)
    requires
        key.len() == 4,
        payload.len() <= u64::MAX,
    ensures
        complete(masked_frame(first, key, payload) + rest),
        frame_len(masked_frame(first, key, payload) + rest) == masked_frame(
            first,
            key,
            payload,
        ).len(),
        first_frame(masked_frame(first, key, payload) + rest) == (FrameView {
            headers: Headers { mask: true, ..Headers::of_bytes(first, 0) },
            opcode: Opcode::of_byte(first),
            payload,
        }),
        (masked_frame(first, key, payload) + rest).skip(
            masked_frame(first, key, payload).len() as int,
        ) == rest,
{
    let length = payload.len();
    let plain = length_field(length);
    let field = plain.update(0, plain[0] | MASKED_MASK);
    let bytes = masked_frame(first, key, payload) + rest;
    lemma_length_byte(plain[0]);
    assert(bytes[0] == first);
    assert(bytes[1] == field[0]);
    if length <= 125 {
    } else if length <= 0xFFFF {
        lemma_be16_value(length);
        assert(bytes.subrange(2, 4) =~= be16(length));
    } else {
        lemma_be64_value(length);
        assert(bytes.subrange(2, 10) =~= be64(length));
    }
    assert(payload_len(bytes) == length);
    let start = header_len(bytes[1]) as int;
    assert(start == 1 + field.len() + 4);
    assert(bytes.subrange(start - 4, start) =~= key);
    assert(bytes.subrange(start, start + length) =~= masked(payload, key));
    lemma_mask_twice(payload, key);
    assert(bytes.skip(start + length) =~= rest);
}

/// Decoding an encoded message gives the opcode and the payload back: the
/// frame read from `message(opcode, payload)` is final, unmasked, has no
/// reserved flag set, and carries that opcode and that payload.
pub proof fn lemma_message_round_trip(opcode: Opcode, payload: Seq<u8>)
    requires
        payload.len() <= u64::MAX,
    ensures
        complete(message(opcode, payload)),
        frame_len(message(opcode, payload)) == message(opcode, payload).len(),
        first_frame(message(opcode, payload)) == (FrameView {
            headers: Headers { fin: true, rsv1: false, rsv2: false, rsv3: false, mask: false },
            opcode,
            payload,
        }),
{
    let first = first_byte(opcode);
    let code = opcode.code();
    lemma_read_unmasked(first, payload, Seq::<u8>::empty());
    assert(unmasked_frame(first, payload) + Seq::<u8>::empty() =~= message(opcode, payload));
    lemma_decode_encode(opcode);
    assert(code <= 0xF ==> (0x80u8 | code) & 0x0Fu8 == code & 0x0Fu8) by (bit_vector);
    assert(code <= 0xF ==> (0x80u8 | code) & 0x80u8 == 0x80u8) by (bit_vector);
    assert(code <= 0xF ==> (0x80u8 | code) & 0x40u8 != 0x40u8) by (bit_vector);
    assert(code <= 0xF ==> (0x80u8 | code) & 0x20u8 != 0x20u8) by (bit_vector);
    assert(code <= 0xF ==> (0x80u8 | code) & 0x10u8 != 0x10u8) by (bit_vector);
}

/// Nothing is missing exactly when the bytes start with a whole frame.
pub proof fn lemma_missing_nothing(bytes: Seq<u8>)
    ensures
        missing(bytes) == 0 <==> complete(bytes),
{
}

/// Reading what is missing never reads past the frame: for a proper prefix
/// of a whole frame, something is missing, and the prefix with what is
/// missing is still within the frame.
pub proof fn lemma_missing_stays_within_frame(whole: Seq<u8>, taken: int)
    requires
        complete(whole),
        0 <= taken < frame_len(whole),
    ensures
        missing(whole.take(taken)) > 0,
        taken + missing(whole.take(taken)) <= frame_len(whole),
{
    let prefix = whole.take(taken);
    if taken >= 2 {
        assert(prefix[1] == whole[1]);
        if taken >= header_len(whole[1]) {
            if length7(whole[1]) == 126 {
                assert(prefix.subrange(2, 4) =~= whole.subrange(2, 4));
            } else if length7(whole[1]) == 127 {
                assert(prefix.subrange(2, 10) =~= whole.subrange(2, 10));
            }
            assert(payload_len(prefix) == payload_len(whole));
        }
    }
}

} // verus!
