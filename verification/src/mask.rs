//! The cyclic XOR mask of client-to-server payloads.

use vstd::prelude::*;

verus! {

/// `payload` with byte `i` XORed with byte `i mod 4` of the key.
pub open spec fn masked(payload: Seq<u8>, key: Seq<u8>) -> Seq<u8>
    recommends
        key.len() == 4,
{
    Seq::new(payload.len(), |i: int| payload[i] ^ key[i % 4])
}

/// Masks or unmasks `payload` in place: the same operation does both.
pub fn apply_mask(payload: &mut Vec<u8>, key: &[u8; 4])
    ensures
        final(payload)@ == masked(old(payload)@, key@),
{
    let length: usize = payload.len();
    let mut i: usize = 0;
    while i < length
        invariant
            i <= length,
            payload@.len() == length,
            old(payload)@.len() == length,
            forall|j: int| 0 <= j < i ==> payload@[j] == old(payload)@[j] ^ key@[j % 4],
            forall|j: int| i <= j < length ==> payload@[j] == old(payload)@[j],
        decreases length - i,
    {
        let byte: u8 = payload[i] ^ key[i % 4];
        payload.set(i, byte);
        i += 1;
    }
    assert(payload@ =~= masked(old(payload)@, key@));
}

/// Masking twice with the same key gives the payload back unchanged.
pub proof fn lemma_mask_twice(payload: Seq<u8>, key: Seq<u8>)
    ensures
        masked(masked(payload, key), key) == payload,
{
    assert forall|i: int| 0 <= i < payload.len() implies masked(masked(payload, key), key)[i]
        == payload[i] by {
        let p = payload[i];
        let k = key[i % 4];
        assert((p ^ k) ^ k == p) by (bit_vector);
    }
    assert(masked(masked(payload, key), key) =~= payload);
}

} // verus!
