//! Decoding frames from bytes.

use vstd::prelude::*;
use vstd::slice::{slice_subrange, slice_to_vec};
use crate::consts::{has_bits, is_mask, LENGTH_MASK, MASKED_MASK};
use crate::encoding::{be16_value, be64_value};
use crate::frame::{Frame, FrameView, Headers};
use crate::mask::{apply_mask, masked};
use crate::opcode::Opcode;

verus! {

/// Why a read failed.
#[derive(Clone, Copy, Debug, PartialEq, Eq, Structural)]
pub enum ReadError {
    /// The input ended before the bytes that were asked for.
    UnexpectedEof,
}

/// The width of an extended length.
#[derive(Clone, Copy, Debug, PartialEq, Eq, Structural)]
pub enum Length {
    U16,
    U64,
}

/// A byte stream held in memory. Its view is what is left to read.
pub struct ByteReader<'a> {
    rest: &'a [u8],
}

impl<'a> View for ByteReader<'a> {
    type V = Seq<u8>;

    closed spec fn view(&self) -> Seq<u8> {
        self.rest@
    }
}

impl<'a> ByteReader<'a> {
    /// A reader at the start of `bytes`.
    pub fn new(bytes: &'a [u8]) -> (reader: Self)
        ensures
            reader@ == bytes@,
    {
        ByteReader { rest: bytes }
    }

    /// How many bytes are left.
    pub fn remaining(&self) -> (count: usize)
        ensures
            count == self@.len(),
    {
        self.rest.len()
    }

    /// Takes exactly `count` bytes. Where fewer are left the read fails and
    /// the stream is at its end.
    pub fn read_exact(&mut self, count: u64) -> (read: Result<Vec<u8>, ReadError>)
        ensures
            match read {
                Ok(bytes) => {
                    &&& count <= old(self)@.len()
                    &&& bytes@ == old(self)@.take(count as int)
                    &&& final(self)@ == old(self)@.skip(count as int)
                },
                Err(error) => {
                    &&& count > old(self)@.len()
                    &&& error == ReadError::UnexpectedEof
                    &&& final(self)@ == Seq::<u8>::empty()
                },
            },
    {
        let available: usize = self.rest.len();
        if count > available as u64 {
            self.rest = slice_subrange(self.rest, available, available);
            assert(self@ =~= Seq::<u8>::empty());
            Err(ReadError::UnexpectedEof)
        } else {
            let n: usize = count as usize;
            let bytes = slice_to_vec(slice_subrange(self.rest, 0, n));
            self.rest = slice_subrange(self.rest, n, available);
            Ok(bytes)
        }
    }
}

/// The 7-bit length field of the second header byte.
pub open spec fn length7(second: u8) -> u8 {
    second & LENGTH_MASK
}

/// How many bytes of extended length follow the second header byte.
pub open spec fn extended_len(second: u8) -> nat {
    if length7(second) == 126 {
        2
    } else if length7(second) == 127 {
        8
    } else {
        0
    }
}

/// How many bytes of mask key the header holds.
pub open spec fn key_len(second: u8) -> nat {
    if has_bits(second, MASKED_MASK) {
        4
    } else {
        0
    }
}

/// The length of the whole header: two bytes, the extended length and the
/// mask key.
pub open spec fn header_len(second: u8) -> nat {
    2 + extended_len(second) + key_len(second)
}

/// The payload length that the frame at the start of `bytes` declares.
pub open spec fn payload_len(bytes: Seq<u8>) -> nat
    recommends
        bytes.len() >= 2,
        bytes.len() >= 2 + extended_len(bytes[1]),
{
    if length7(bytes[1]) == 126 {
        be16_value(bytes.subrange(2, 4))
    } else if length7(bytes[1]) == 127 {
        be64_value(bytes.subrange(2, 10))
    } else {
        length7(bytes[1]) as nat
    }
}

/// The length of the frame at the start of `bytes`, header and payload.
pub open spec fn frame_len(bytes: Seq<u8>) -> nat
    recommends
        bytes.len() >= 2,
        bytes.len() >= 2 + extended_len(bytes[1]),
{
    header_len(bytes[1]) + payload_len(bytes)
}

/// Whether `bytes` starts with a whole frame.
pub open spec fn complete(bytes: Seq<u8>) -> bool {
    &&& bytes.len() >= 2
    &&& bytes.len() >= 2 + extended_len(bytes[1])
    &&& bytes.len() >= frame_len(bytes)
}

/// The frame at the start of `bytes`: flags and opcode from the two header
/// bytes, and the payload, unmasked where the mask flag is set.
pub open spec fn first_frame(bytes: Seq<u8>) -> FrameView
    recommends
        complete(bytes),
{
    let start = header_len(bytes[1]) as int;
    let raw = bytes.subrange(start, frame_len(bytes) as int);
    FrameView {
        headers: Headers::of_bytes(bytes[0], bytes[1]),
        opcode: Opcode::of_byte(bytes[0]),
        payload: if has_bits(bytes[1], MASKED_MASK) {
            masked(raw, bytes.subrange(start - 4, start))
        } else {
            raw
        },
    }
}

/// How many more bytes must follow `bytes` before the next read can be
/// decided: up to the two header bytes, then up to the end of the header,
/// then up to the end of the payload; zero once the frame is whole.
pub open spec fn missing(bytes: Seq<u8>) -> nat {
    if bytes.len() < 2 {
        (2 - bytes.len()) as nat
    } else if bytes.len() < header_len(bytes[1]) {
        (header_len(bytes[1]) - bytes.len()) as nat
    } else if bytes.len() < frame_len(bytes) {
        (frame_len(bytes) - bytes.len()) as nat
    } else {
        0
    }
}

/// Reads a 16-bit big-endian length.
pub fn read_length_u16(reader: &mut ByteReader) -> (read: Result<u64, ReadError>)
    ensures
        match read {
            Ok(length) => {
                &&& old(reader)@.len() >= 2
                &&& length == be16_value(old(reader)@.take(2))
                &&& final(reader)@ == old(reader)@.skip(2)
            },
            Err(error) => {
                &&& old(reader)@.len() < 2
                &&& error == ReadError::UnexpectedEof
                &&& final(reader)@ == Seq::<u8>::empty()
            },
        },
{
    match reader.read_exact(2) {
        Ok(bytes) => Ok((bytes[0] as u64) * 0x100 + bytes[1] as u64),
        Err(error) => Err(error),
    }
}

/// Reads a 64-bit big-endian length.
pub fn read_length_u64(reader: &mut ByteReader) -> (read: Result<u64, ReadError>)
    ensures
        match read {
            Ok(length) => {
                &&& old(reader)@.len() >= 8
                &&& length == be64_value(old(reader)@.take(8))
                &&& final(reader)@ == old(reader)@.skip(8)
            },
            Err(error) => {
                &&& old(reader)@.len() < 8
                &&& error == ReadError::UnexpectedEof
                &&& final(reader)@ == Seq::<u8>::empty()
            },
        },
{
    match reader.read_exact(8) {
        Ok(bytes) => Ok(
            (bytes[0] as u64) * 0x100_0000_0000_0000 + (bytes[1] as u64) * 0x1_0000_0000_0000 + (
            bytes[2] as u64) * 0x100_0000_0000 + (bytes[3] as u64) * 0x1_0000_0000 + (
            bytes[4] as u64) * 0x100_0000 + (bytes[5] as u64) * 0x1_0000 + (bytes[6] as u64)
                * 0x100 + bytes[7] as u64,
        ),
        Err(error) => Err(error),
    }
}

/// Reads an extended length of the given width.
pub fn read_length(kind: Length, reader: &mut ByteReader) -> (read: Result<u64, ReadError>)
    ensures
        match read {
            Ok(length) => match kind {
                Length::U16 => {
                    &&& old(reader)@.len() >= 2
                    &&& length == be16_value(old(reader)@.take(2))
                    &&& final(reader)@ == old(reader)@.skip(2)
                },
                Length::U64 => {
                    &&& old(reader)@.len() >= 8
                    &&& length == be64_value(old(reader)@.take(8))
                    &&& final(reader)@ == old(reader)@.skip(8)
                },
            },
            Err(error) => {
                &&& old(reader)@.len() < (match kind {
                    Length::U16 => 2int,
                    Length::U64 => 8int,
                })
                &&& error == ReadError::UnexpectedEof
                &&& final(reader)@ == Seq::<u8>::empty()
            },
        },
{
    match kind {
        Length::U16 => read_length_u16(reader),
        Length::U64 => read_length_u64(reader),
    }
}

/// Reads the four bytes of a mask key.
pub fn read_mask(reader: &mut ByteReader) -> (read: Result<[u8; 4], ReadError>)
    ensures
        match read {
            Ok(key) => {
                &&& old(reader)@.len() >= 4
                &&& key@ == old(reader)@.take(4)
                &&& final(reader)@ == old(reader)@.skip(4)
            },
            Err(error) => {
                &&& old(reader)@.len() < 4
                &&& error == ReadError::UnexpectedEof
                &&& final(reader)@ == Seq::<u8>::empty()
            },
        },
{
    match reader.read_exact(4) {
        Ok(bytes) => {
            let key: [u8; 4] = [bytes[0], bytes[1], bytes[2], bytes[3]];
            assert(key@ =~= bytes@);
            Ok(key)
        },
        Err(error) => Err(error),
    }
}

/// Decodes the frame at the start of the stream and leaves the reader just
/// behind it. Any opcode is accepted. A stream that ends inside the frame is
/// an error, and the reader is then at its end.
pub fn read_frame(reader: &mut ByteReader) -> (read: Result<Frame, ReadError>)
    ensures
        match read {
            Ok(frame) => {
                &&& complete(old(reader)@)
                &&& frame@ == first_frame(old(reader)@)
                &&& frame.payload@.len() == payload_len(old(reader)@)
                &&& final(reader)@ == old(reader)@.skip(frame_len(old(reader)@) as int)
            },
            Err(error) => {
                &&& !complete(old(reader)@)
                &&& error == ReadError::UnexpectedEof
                &&& final(reader)@ == Seq::<u8>::empty()
            },
        },
{
    let ghost input = reader@;
    let head = match reader.read_exact(2) {
        Ok(head) => head,
        Err(error) => {
            return Err(error);
        },
    };
    let headers = Headers::decode(head[0], head[1]);
    let opcode = Opcode::decode(head[0]);
    let second: u8 = head[1];
    let field: u8 = second & LENGTH_MASK;
    assert(head@[0] == input[0] && head@[1] == input[1]);
    assert(field <= 127) by (bit_vector)
        requires
            field == second & 0x7Fu8,
    ;
    let ghost after_head = reader@;
    let length: u64 = if field == 126 {
        match read_length_u16(reader) {
            Ok(length) => {
                assert(after_head.take(2) =~= input.subrange(2, 4));
                length
            },
            Err(error) => {
                return Err(error);
            },
        }
    } else if field == 127 {
        match read_length_u64(reader) {
            Ok(length) => {
                assert(after_head.take(8) =~= input.subrange(2, 10));
                length
            },
            Err(error) => {
                return Err(error);
            },
        }
    } else {
        field as u64
    };
    let ghost extended = extended_len(input[1]) as int;
    assert(reader@ =~= input.skip(2 + extended));
    assert(length == payload_len(input));
    let ghost after_length = reader@;
    let key: Option<[u8; 4]> = if headers.mask {
        match read_mask(reader) {
            Ok(key) => {
                assert(after_length.take(4) =~= input.subrange(2 + extended, 6 + extended));
                Some(key)
            },
            Err(error) => {
                return Err(error);
            },
        }
    } else {
        None
    };
    let ghost start = header_len(input[1]) as int;
    assert(reader@ =~= input.skip(start));
    let mut payload = match reader.read_exact(length) {
        Ok(payload) => payload,
        Err(error) => {
            return Err(error);
        },
    };
    assert(payload@ =~= input.subrange(start, start + length));
    assert(reader@ =~= input.skip(start + length));
    match key {
        Some(key) => {
            apply_mask(&mut payload, &key);
        },
        None => {},
    }
    Ok(Frame { headers, opcode, payload })
}

/// How many bytes to read next, given the bytes of the current frame read so
/// far; zero when they are a whole frame, which [`read_frame`] then decodes.
/// A caller that reads from a socket reads that many, appends them and asks
/// again.
pub fn missing_bytes(prefix: &[u8]) -> (count: u64)
    ensures
        count == missing(prefix@),
        count == 0 <==> complete(prefix@),
{
    let have: usize = prefix.len();
    if have < 2 {
        return (2 - have) as u64;
    }
    let second: u8 = prefix[1];
    let field: u8 = second & LENGTH_MASK;
    assert(field <= 127) by (bit_vector)
        requires
            field == second & 0x7Fu8,
    ;
    let extended: usize = if field == 126 {
        2
    } else if field == 127 {
        8
    } else {
        0
    };
    let header: usize = if is_mask(second) {
        2 + extended + 4
    } else {
        2 + extended
    };
    if have < header {
        return (header - have) as u64;
    }
    let mut reader = ByteReader::new(slice_subrange(prefix, 2, have));
    let length: u64 = if field == 126 {
        match read_length_u16(&mut reader) {
            Ok(length) => length,
            Err(_) => 0,
        }
    } else if field == 127 {
        match read_length_u64(&mut reader) {
            Ok(length) => length,
            Err(_) => 0,
        }
    } else {
        field as u64
    };
    proof {
        let rest = prefix@.subrange(2, have as int);
        if field == 126 {
            assert(rest.take(2) =~= prefix@.subrange(2, 4));
        }
        if field == 127 {
            assert(rest.take(8) =~= prefix@.subrange(2, 10));
        }
    }
    assert(length == payload_len(prefix@));
    let body: u64 = (have - header) as u64;
    if body < length {
        length - body
    } else {
        0
    }
}

} // verus!
