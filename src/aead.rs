//! AES-256-GCM sealing and opening of payloads, and the sealed frames that
//! carry them.
use crate::codec::{encode_header, encode_spec, Message, MessageTy};
use crate::error::ProtoError;
use crate::{BLOCK_SIZE, KEY_LEN, MESSAGE_SIZE, NONCE_LEN, TAG_LEN};
use ring::aead::{Aad, LessSafeKey, Nonce, UnboundKey, AES_256_GCM};
use vstd::prelude::*;

verus! {

/// What AES-256-GCM with empty associated data makes of `plain` under `key`
/// and `nonce`: the ciphertext followed by the tag.
pub uninterp spec fn seal_of(key: Seq<u8>, nonce: Seq<u8>, plain: Seq<u8>) -> Seq<u8>;

/// `sealed` is what sealing `plain` gave: one tag longer than the plaintext.
pub open spec fn sealed_as(key: Seq<u8>, nonce: Seq<u8>, plain: Seq<u8>, sealed: Seq<u8>) -> bool {
    &&& sealed == seal_of(key, nonce, plain)
    &&& sealed.len() == plain.len() + TAG_LEN
}

/// `plain` is what opening `sealed` gave: `sealed` is the sealing of `plain`,
/// and of no other plaintext.
pub open spec fn opened_as(key: Seq<u8>, nonce: Seq<u8>, sealed: Seq<u8>, plain: Seq<u8>) -> bool {
    &&& seal_of(key, nonce, plain) == sealed
    &&& forall|q: Seq<u8>| #[trigger] seal_of(key, nonce, q) == sealed ==> q == plain
}

/// Relies on ring's `LessSafeKey::seal_in_place_append_tag` with
/// `AES_256_GCM` and empty associated data: the plaintext is encrypted in
/// place and the 16-byte tag appended. The key and nonce are taken in with
/// `UnboundKey::new` and `Nonce::try_assume_unique_for_key`; when either
/// refuses its bytes, nothing is returned. A key of `KEY_LEN` bytes and a
/// nonce of `NONCE_LEN` bytes are accepted, and ring refuses only inputs
/// far longer than a block.
#[verifier::external_body]
fn aes_gcm_seal(key: &[u8], nonce: &[u8], plain: &[u8]) -> (r: Option<Vec<u8>>)
    ensures
        r matches Some(c) ==> c@ == seal_of(key@, nonce@, plain@) && c@.len() == plain@.len()
            + TAG_LEN,
        key@.len() == KEY_LEN && nonce@.len() == NONCE_LEN && plain@.len() <= BLOCK_SIZE
            ==> r is Some,
{
    let key = LessSafeKey::new(UnboundKey::new(&AES_256_GCM, key).ok()?);
    let nonce = Nonce::try_assume_unique_for_key(nonce).ok()?;
    let mut buf = plain.to_vec();
    key.seal_in_place_append_tag(nonce, Aad::empty(), &mut buf).ok()?;
    Some(buf)
}

/// Relies on ring's `LessSafeKey::open_in_place` with `AES_256_GCM` and
/// empty associated data: it returns the plaintext exactly when the tag
/// authenticates the ciphertext under this key and nonce, that is when the
/// input is the sealing of that plaintext. The key and nonce are taken in
/// as for sealing; `UnboundKey::new` accepts a key of `KEY_LEN` bytes, and
/// inputs of a block's size are far below the length that ring refuses.
#[verifier::external_body]
fn aes_gcm_open(key: &[u8], nonce: &[u8], sealed: &[u8]) -> (r: Option<Vec<u8>>)
    requires
        key@.len() == KEY_LEN,
        nonce@.len() == NONCE_LEN,
        sealed@.len() <= BLOCK_SIZE + TAG_LEN,
    ensures
        match r {
            Some(p) => opened_as(key@, nonce@, sealed@, p@),
            None => forall|q: Seq<u8>| #[trigger] seal_of(key@, nonce@, q) != sealed@,
        },
{
    let key = LessSafeKey::new(UnboundKey::new(&AES_256_GCM, key).ok()?);
    let nonce = Nonce::try_assume_unique_for_key(nonce).ok()?;
    let mut buf = sealed.to_vec();
    let plain = key.open_in_place(nonce, Aad::empty(), &mut buf).ok()?;
    Some(plain.to_vec())
}

/// Seals `plain` under `key` and `nonce`. A key and nonce of the right sizes
/// and a plaintext of at most one block are always sealed.
pub fn seal(key: &[u8], nonce: &[u8], plain: &[u8]) -> (r: Result<Vec<u8>, ProtoError>)
    ensures
        r matches Ok(c) ==> sealed_as(key@, nonce@, plain@, c@),
        r matches Err(e) ==> e == ProtoError::CryptoErr,
        key@.len() == KEY_LEN && nonce@.len() == NONCE_LEN && plain@.len() <= BLOCK_SIZE
            ==> r is Ok,
{
    match aes_gcm_seal(key, nonce, plain) {
        Some(c) => Ok(c),
        None => Err(ProtoError::CryptoErr),
    }
}

/// Opens `sealed` under `key` and `nonce`. It succeeds exactly when `sealed`
/// is the sealing of some plaintext, and then returns that plaintext.
pub fn open(key: &[u8], nonce: &[u8], sealed: &[u8]) -> (r: Result<Vec<u8>, ProtoError>)
    requires
        key@.len() == KEY_LEN,
        nonce@.len() == NONCE_LEN,
        sealed@.len() <= BLOCK_SIZE + TAG_LEN,
    ensures
        r is Ok <==> exists|p: Seq<u8>| seal_of(key@, nonce@, p) == sealed@,
        r matches Ok(p) ==> opened_as(key@, nonce@, sealed@, p@),
        r matches Err(e) ==> e == ProtoError::CryptoErr,
{
    match aes_gcm_open(key, nonce, sealed) {
        Some(p) => Ok(p),
        None => Err(ProtoError::CryptoErr),
    }
}

/// The frame of a message of kind `ty` whose payload is `sealed`: its header,
/// then the payload.
pub open spec fn frame_spec(ty: MessageTy, sealed: Seq<u8>) -> Seq<u8> {
    encode_spec(Message { ty, len: sealed.len() as u64 }) + sealed
}

/// Seals `plain` and frames the result as a message of kind `ty`. The frame is
/// exactly `MESSAGE_SIZE + plain.len() + TAG_LEN` bytes.
pub fn seal_frame(ty: MessageTy, key: &[u8], nonce: &[u8], plain: &[u8]) -> (r: Result<
    Vec<u8>,
    ProtoError,
>)
    requires
        plain@.len() <= BLOCK_SIZE,
    ensures
        r matches Ok(f) ==> sealed_as(key@, nonce@, plain@, seal_of(key@, nonce@, plain@)) && f@
            == frame_spec(ty, seal_of(key@, nonce@, plain@)) && f@.len() == MESSAGE_SIZE
            + plain@.len() + TAG_LEN,
        r matches Err(e) ==> e == ProtoError::CryptoErr,
        key@.len() == KEY_LEN && nonce@.len() == NONCE_LEN ==> r is Ok,
{
    let mut c = seal(key, nonce, plain)?;
    let msg = Message { ty, len: c.len() as u64 };
    let mut f = encode_header(&msg)?;
    f.append(&mut c);
    Ok(f)
}

} // verus!
