//! The opening handshake: the accept token that answers a client's key.

use sha1::{Digest, Sha1};
use vstd::prelude::*;
use vstd::slice::slice_to_vec;
use vstd::utf8::encode_utf8;

verus! {

/// The GUID that every WebSocket server appends to the client's key.
pub const WS_MAGIC_CONST: &'static str = "258EAFA5-E914-47DA-95CA-C5AB0DC85B11";

/// The SHA-1 digest of a message: twenty bytes.
pub uninterp spec fn sha1_digest(msg: Seq<u8>) -> Seq<u8>;

/// The standard base64 text, with padding, of some bytes.
pub uninterp spec fn base64_text(bytes: Seq<u8>) -> Seq<char>;

/// The accept token for a key: the base64 text of the SHA-1 digest of the
/// key followed by the GUID.
pub open spec fn accept_token(key: Seq<u8>) -> Seq<char> {
    base64_text(sha1_digest(key + encode_utf8(WS_MAGIC_CONST@)))
}

/// Calls `Sha1::digest` of the `sha1` crate. Trusted: the result is the
/// SHA-1 digest of `msg`, a function of the message alone.
#[verifier::external_body]
fn sha1(msg: &[u8]) -> (digest: [u8; 20])
    ensures
        digest@ == sha1_digest(msg@),
{
    Sha1::digest(msg).into()
}

/// Calls `base64::encode`. Trusted: the result is the standard padded
/// base64 text of the digest, a function of its bytes alone.
#[verifier::external_body]
fn base64_encode(digest: &[u8; 20]) -> (text: String)
    ensures
        text@ == base64_text(digest@),
{
    base64::encode(digest)
}

/// Derives the `Sec-WebSocket-Accept` value from the bytes of the client's
/// `Sec-WebSocket-Key` header.
pub fn generate_key_from(input: &[u8]) -> (accept: String)
    ensures
        accept@ == accept_token(input@),
{
    let mut concatenated = slice_to_vec(input);
    let magic = WS_MAGIC_CONST.as_bytes();
    concatenated.extend_from_slice(magic);
    assert(concatenated@ == input@ + encode_utf8(WS_MAGIC_CONST@));
    let hash = sha1(concatenated.as_slice());
    base64_encode(&hash)
}

} // verus!
