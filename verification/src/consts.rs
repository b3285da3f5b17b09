//! Bit masks of the two header bytes of a frame, and the flag tests.

use vstd::prelude::*;

verus! {

pub const FIN_MASK: u8 = 0b1000_0000;

pub const RSV1_MASK: u8 = 0b0100_0000;

pub const RSV2_MASK: u8 = 0b0010_0000;

pub const RSV3_MASK: u8 = 0b0001_0000;

pub const OPCODE_MASK: u8 = 0b0000_1111;

pub const LENGTH_MASK: u8 = 0b0111_1111;

pub const MASKED_MASK: u8 = 0b1000_0000;

/// Whether every bit of `mask` is set in `byte`.
pub open spec fn has_bits(byte: u8, mask: u8) -> bool {
    byte & mask == mask
}

/// The `fin` flag: the highest bit of the first header byte.
pub fn is_fin(byte: u8) -> (set: bool)
    ensures
        set == has_bits(byte, FIN_MASK),
{
    (byte & FIN_MASK) == FIN_MASK
}

/// The `rsv1` flag: the second-highest bit of the first header byte.
pub fn is_rsv1(byte: u8) -> (set: bool)
    ensures
        set == has_bits(byte, RSV1_MASK),
{
    (byte & RSV1_MASK) == RSV1_MASK
}

/// The `rsv2` flag: the third-highest bit of the first header byte.
pub fn is_rsv2(byte: u8) -> (set: bool)
    ensures
        set == has_bits(byte, RSV2_MASK),
{
    (byte & RSV2_MASK) == RSV2_MASK
}

/// The `rsv3` flag: the fourth-highest bit of the first header byte.
pub fn is_rsv3(byte: u8) -> (set: bool)
    ensures
        set == has_bits(byte, RSV3_MASK),
{
    (byte & RSV3_MASK) == RSV3_MASK
}

/// The `mask` flag: the highest bit of the second header byte.
pub fn is_mask(byte: u8) -> (set: bool)
    ensures
        set == has_bits(byte, MASKED_MASK),
{
    (byte & MASKED_MASK) == MASKED_MASK
}

} // verus!
