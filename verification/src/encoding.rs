//! The variable-length payload length field.

use vstd::prelude::*;

verus! {

/// The two bytes of `value` modulo 2^16, most significant first.
pub open spec fn be16(value: nat) -> Seq<u8> {
    seq![(value / 0x100 % 0x100) as u8, (value % 0x100) as u8]
}

/// The eight bytes of `value` modulo 2^64, most significant first.
pub open spec fn be64(value: nat) -> Seq<u8> {
    seq![
        (value / 0x100_0000_0000_0000 % 0x100) as u8,
        (value / 0x1_0000_0000_0000 % 0x100) as u8,
        (value / 0x100_0000_0000 % 0x100) as u8,
        (value / 0x1_0000_0000 % 0x100) as u8,
        (value / 0x100_0000 % 0x100) as u8,
        (value / 0x1_0000 % 0x100) as u8,
        (value / 0x100 % 0x100) as u8,
        (value % 0x100) as u8,
    ]
}

/// The number that two bytes spell, most significant first.
pub open spec fn be16_value(bytes: Seq<u8>) -> nat
    recommends
        bytes.len() == 2,
{
    (bytes[0] as nat) * 0x100 + bytes[1] as nat
}

/// The number that eight bytes spell, most significant first.
pub open spec fn be64_value(bytes: Seq<u8>) -> nat
    recommends
        bytes.len() == 8,
{
    (bytes[0] as nat) * 0x100_0000_0000_0000 + (bytes[1] as nat) * 0x1_0000_0000_0000 + (
    bytes[2] as nat) * 0x100_0000_0000 + (bytes[3] as nat) * 0x1_0000_0000 + (bytes[4] as nat)
        * 0x100_0000 + (bytes[5] as nat) * 0x1_0000 + (bytes[6] as nat) * 0x100 + bytes[7] as nat
}

/// The length field of an unmasked frame whose payload has `length` bytes:
/// the length itself up to 125, else 126 and the length in two bytes, else
/// 127 and the length in eight bytes.
pub open spec fn length_field(length: nat) -> Seq<u8> {
    if length <= 125 {
        seq![length as u8]
    } else if length <= 0xFFFF {
        seq![126u8] + be16(length)
    } else {
        seq![127u8] + be64(length)
    }
}

/// Two bytes spell the 16-bit number they were made from.
pub proof fn lemma_be16_value(value: nat)
    requires
        value <= 0xFFFF,
    ensures
        be16(value).len() == 2,
        be16_value(be16(value)) == value,
{
}

/// Eight bytes spell the 64-bit number they were made from.
pub proof fn lemma_be64_value(value: nat)
    requires
        value <= 0xFFFF_FFFF_FFFF_FFFF,
    ensures
        be64(value).len() == 8,
        be64_value(be64(value)) == value,
{
    let v = value as u64;
    assert((v / 0x100_0000_0000_0000 % 0x100) * 0x100_0000_0000_0000 + (v / 0x1_0000_0000_0000
        % 0x100) * 0x1_0000_0000_0000 + (v / 0x100_0000_0000 % 0x100) * 0x100_0000_0000 + (v
        / 0x1_0000_0000 % 0x100) * 0x1_0000_0000 + (v / 0x100_0000 % 0x100) * 0x100_0000 + (v
        / 0x1_0000 % 0x100) * 0x1_0000 + (v / 0x100 % 0x100) * 0x100 + v % 0x100 == v)
        by (bit_vector);
}

/// Encodes the payload length as the length field of an unmasked frame.
pub fn encode_length(length: usize) -> (field: Vec<u8>)
    ensures
        field@ == length_field(length as nat),
{
    let mut field: Vec<u8> = Vec::new();
    if length <= 125 {
        field.push(length as u8);
    } else if length <= 65535 {
        field.push(126);
        field.push((length / 0x100 % 0x100) as u8);
        field.push((length % 0x100) as u8);
    } else {
        let wide: u64 = length as u64;
        field.push(127);
        field.push((wide / 0x100_0000_0000_0000 % 0x100) as u8);
        field.push((wide / 0x1_0000_0000_0000 % 0x100) as u8);
        field.push((wide / 0x100_0000_0000 % 0x100) as u8);
        field.push((wide / 0x1_0000_0000 % 0x100) as u8);
        field.push((wide / 0x100_0000 % 0x100) as u8);
        field.push((wide / 0x1_0000 % 0x100) as u8);
        field.push((wide / 0x100 % 0x100) as u8);
        field.push((wide % 0x100) as u8);
    }
    assert(field@ =~= length_field(length as nat));
    field
}

} // verus!
