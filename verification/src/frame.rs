//! The decoded unit of the wire: header flags, opcode and payload.

use vstd::prelude::*;
use crate::consts::{
    has_bits, is_fin, is_mask, is_rsv1, is_rsv2, is_rsv3, FIN_MASK, MASKED_MASK, RSV1_MASK, RSV2_MASK,
    RSV3_MASK,
};
use crate::opcode::Opcode;

verus! {

/// The four flags of the first header byte and the mask flag of the second.
#[derive(Clone, Copy, Debug, PartialEq, Eq, Structural)]
pub struct Headers {
    pub fin: bool,
    pub rsv1: bool,
    pub rsv2: bool,
    pub rsv3: bool,
    pub mask: bool,
}

impl Headers {
    /// The flags that the two header bytes carry.
    pub open spec fn of_bytes(first: u8, second: u8) -> Headers {
        Headers {
            fin: has_bits(first, FIN_MASK),
            rsv1: has_bits(first, RSV1_MASK),
            rsv2: has_bits(first, RSV2_MASK),
            rsv3: has_bits(first, RSV3_MASK),
            mask: has_bits(second, MASKED_MASK),
        }
    }

    /// Reads `fin` and the three reserved flags from the first header byte
    /// and `mask` from the second.
    pub fn decode(first: u8, second: u8) -> (headers: Headers)
        ensures
            headers == Headers::of_bytes(first, second),
    {
        Headers {
            fin: is_fin(first),
            rsv1: is_rsv1(first),
            rsv2: is_rsv2(first),
            rsv3: is_rsv3(first),
            mask: is_mask(second),
        }
    }
}

/// One frame as read from the wire. The payload is already unmasked and is
/// exactly as long as the frame's length field says.
#[derive(Debug)]
pub struct Frame {
    pub headers: Headers,
    pub opcode: Opcode,
    pub payload: Vec<u8>,
}

/// The mathematical value of a [`Frame`].
pub ghost struct FrameView {
    pub headers: Headers,
    pub opcode: Opcode,
    pub payload: Seq<u8>,
}

impl View for Frame {
    type V = FrameView;

    open spec fn view(&self) -> FrameView {
        FrameView { headers: self.headers, opcode: self.opcode, payload: self.payload@ }
    }
}

} // verus!
