//! The 4-bit opcode of a frame.

use vstd::prelude::*;
use crate::consts::OPCODE_MASK;

verus! {

#[derive(Clone, Copy, Debug, PartialEq, Eq, Structural)]
pub enum Opcode {
    Continuation,
    Text,
    Binary,
    ReservedNonControl3,
    ReservedNonControl4,
    ReservedNonControl5,
    ReservedNonControl6,
    ReservedNonControl7,
    Close,
    Ping,
    Pong,
    ReservedControlB,
    ReservedControlC,
    ReservedControlD,
    ReservedControlE,
    ReservedControlF,
}

impl Opcode {
    /// The wire value of an opcode, in `0x0..=0xF`.
    pub open spec fn code(self) -> u8 {
        match self {
            Opcode::Continuation => 0x0,
            Opcode::Text => 0x1,
            Opcode::Binary => 0x2,
            Opcode::ReservedNonControl3 => 0x3,
            Opcode::ReservedNonControl4 => 0x4,
            Opcode::ReservedNonControl5 => 0x5,
            Opcode::ReservedNonControl6 => 0x6,
            Opcode::ReservedNonControl7 => 0x7,
            Opcode::Close => 0x8,
            Opcode::Ping => 0x9,
            Opcode::Pong => 0xA,
            Opcode::ReservedControlB => 0xB,
            Opcode::ReservedControlC => 0xC,
            Opcode::ReservedControlD => 0xD,
            Opcode::ReservedControlE => 0xE,
            Opcode::ReservedControlF => 0xF,
        }
    }

    /// The opcode that the low four bits of `byte` name.
    pub open spec fn of_byte(byte: u8) -> Opcode {
        let low = byte & OPCODE_MASK;
        if low == 0x0 {
            Opcode::Continuation
        } else if low == 0x1 {
            Opcode::Text
        } else if low == 0x2 {
            Opcode::Binary
        } else if low == 0x3 {
            Opcode::ReservedNonControl3
        } else if low == 0x4 {
            Opcode::ReservedNonControl4
        } else if low == 0x5 {
            Opcode::ReservedNonControl5
        } else if low == 0x6 {
            Opcode::ReservedNonControl6
        } else if low == 0x7 {
            Opcode::ReservedNonControl7
        } else if low == 0x8 {
            Opcode::Close
        } else if low == 0x9 {
            Opcode::Ping
        } else if low == 0xA {
            Opcode::Pong
        } else if low == 0xB {
            Opcode::ReservedControlB
        } else if low == 0xC {
            Opcode::ReservedControlC
        } else if low == 0xD {
            Opcode::ReservedControlD
        } else if low == 0xE {
            Opcode::ReservedControlE
        } else {
            Opcode::ReservedControlF
        }
    }

    /// Reads the opcode out of the first header byte, whose high four bits
    /// (the flags) are ignored.
    pub fn decode(byte: u8) -> (opcode: Opcode)
        ensures
            opcode == Opcode::of_byte(byte),
            opcode.code() == byte & OPCODE_MASK,
    {
        let low: u8 = byte & OPCODE_MASK;
        assert(low <= 0xF) by (bit_vector)
            requires
                low == byte & 0x0Fu8,
        ;
        match low {
            0x0 => Opcode::Continuation,
            0x1 => Opcode::Text,
            0x2 => Opcode::Binary,
            0x3 => Opcode::ReservedNonControl3,
            0x4 => Opcode::ReservedNonControl4,
            0x5 => Opcode::ReservedNonControl5,
            0x6 => Opcode::ReservedNonControl6,
            0x7 => Opcode::ReservedNonControl7,
            0x8 => Opcode::Close,
            0x9 => Opcode::Ping,
            0xA => Opcode::Pong,
            0xB => Opcode::ReservedControlB,
            0xC => Opcode::ReservedControlC,
            0xD => Opcode::ReservedControlD,
            0xE => Opcode::ReservedControlE,
            _ => Opcode::ReservedControlF,
        }
    }

    /// The wire value of the opcode.
    pub fn encode(&self) -> (code: u8)
        ensures
            code == self.code(),
            code <= 0xF,
    {
        match self {
            Opcode::Continuation => 0x0,
            Opcode::Text => 0x1,
            Opcode::Binary => 0x2,
            Opcode::ReservedNonControl3 => 0x3,
            Opcode::ReservedNonControl4 => 0x4,
            Opcode::ReservedNonControl5 => 0x5,
            Opcode::ReservedNonControl6 => 0x6,
            Opcode::ReservedNonControl7 => 0x7,
            Opcode::Close => 0x8,
            Opcode::Ping => 0x9,
            Opcode::Pong => 0xA,
            Opcode::ReservedControlB => 0xB,
            Opcode::ReservedControlC => 0xC,
            Opcode::ReservedControlD => 0xD,
            Opcode::ReservedControlE => 0xE,
            Opcode::ReservedControlF => 0xF,
        }
    }
}

/// Decoding the wire value of an opcode gives the opcode back.
pub proof fn lemma_decode_encode(opcode: Opcode)
    ensures
        Opcode::of_byte(opcode.code()) == opcode,
{
    let c = opcode.code();
    assert(c <= 0xF ==> c & 0x0Fu8 == c) by (bit_vector);
}

/// Encoding the opcode of a 4-bit value gives the value back, and the flag
/// bits above it never change the opcode that is read.
pub proof fn lemma_encode_decode(byte: u8)
    ensures
        Opcode::of_byte(byte).code() == byte & OPCODE_MASK,
        byte <= 0xF ==> Opcode::of_byte(byte).code() == byte,
{
    assert(byte & 0x0Fu8 <= 0xF) by (bit_vector);
    assert(byte <= 0xF ==> byte & 0x0Fu8 == byte) by (bit_vector);
}

} // verus!
