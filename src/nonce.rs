//! The per-operation AEAD nonce: the session IV followed by a counter.
use crate::bytes::{
    be_bytes, be_u32_bytes, be_u64_bytes, lemma_be_bytes_injective, lemma_be_bytes_len,
    lemma_pow256_values,
};
use crate::error::ProtoError;
use crate::NONCE_LEN;
use vstd::prelude::*;

verus! {

/// The nonce of the AEAD operation numbered `counter` in a session with IV
/// `iv`: four big-endian bytes of the IV, then eight of the counter.
pub open spec fn nonce_bytes(iv: u32, counter: nat) -> Seq<u8> {
    be_bytes(iv as nat, 4) + be_bytes(counter, 8)
}

/// Every nonce is `NONCE_LEN` bytes long, and within a session two AEAD
/// operations with different numbers never share a nonce.
pub proof fn lemma_nonce_unique(iv: u32, i: u64, j: u64)
    ensures
        nonce_bytes(iv, i as nat).len() == NONCE_LEN,
        i != j ==> nonce_bytes(iv, i as nat) != nonce_bytes(iv, j as nat),
{
    lemma_pow256_values();
    lemma_be_bytes_len(iv as nat, 4);
    lemma_be_bytes_len(i as nat, 8);
    lemma_be_bytes_len(j as nat, 8);
    if i != j && nonce_bytes(iv, i as nat) == nonce_bytes(iv, j as nat) {
        assert(nonce_bytes(iv, i as nat).subrange(4, 12) =~= be_bytes(i as nat, 8));
        assert(nonce_bytes(iv, j as nat).subrange(4, 12) =~= be_bytes(j as nat, 8));
        lemma_be_bytes_injective(i as nat, j as nat, 8);
    }
}

/// Advances the counter by one and returns the nonce of the operation it now
/// numbers, so the first nonce of a session uses counter 1. The IV is left
/// as it is. A counter that can no longer advance is refused, since its
/// next nonce would repeat an earlier one.
pub fn get_next_nonce(nonce: &mut u32, counter: &mut u64) -> (r: Result<Vec<u8>, ProtoError>)
    ensures
        *final(nonce) == *old(nonce),
        *old(counter) < u64::MAX ==> *final(counter) == *old(counter) + 1 && (r matches Ok(n)
            && n@ == nonce_bytes(*old(nonce), *final(counter) as nat)),
        *old(counter) == u64::MAX ==> *final(counter) == *old(counter) && r == Err::<
            Vec<u8>,
            ProtoError,
        >(ProtoError::CryptoErr),
{
    if *counter == u64::MAX {
        return Err(ProtoError::CryptoErr);
    }
    *counter = *counter + 1;
    let mut buf = be_u32_bytes(*nonce);
    let mut tail = be_u64_bytes(*counter);
    buf.append(&mut tail);
    Ok(buf)
}

} // verus!
