//! The fixed-size message header: a type and a payload length.
use crate::bytes::{
    be_bytes, be_value, lemma_be_bytes_len, lemma_be_bytes_of_value, lemma_be_value_bound,
    lemma_be_value_of_bytes, lemma_pow256_values,
};
use crate::error::ProtoError;
use crate::MESSAGE_SIZE;
use bincode::Options;
use vstd::prelude::*;

verus! {

#[verifier::external_type_specification]
#[verifier::external_body]
pub struct ExBincodeErrorKind(bincode::ErrorKind);

/// The kind of a message, which says what its payload holds.
#[derive(Debug, Clone, Copy, PartialEq, Eq, Structural)]
pub enum MessageTy {
    /// A sealed block of the sender's input.
    Block,
    /// The sender asks the receiver for the session IV; no payload.
    ReqIV,
    /// The receiver's IV follows as four big-endian bytes.
    RepIV,
    /// A sealed copy of the magic bytes, proving knowledge of the key.
    Hello,
    /// The peer is done; no payload.
    Goodbye,
}

/// A message header: the payload of `len` bytes that follows is of kind `ty`.
#[derive(Debug, Clone, Copy, PartialEq, Eq, Structural)]
pub struct Message {
    pub ty: MessageTy,
    pub len: u64,
}

/// The discriminant that stands for a message type on the wire.
pub open spec fn ty_index(t: MessageTy) -> u32 {
    match t {
        MessageTy::Block => 0,
        MessageTy::ReqIV => 1,
        MessageTy::RepIV => 2,
        MessageTy::Hello => 3,
        MessageTy::Goodbye => 4,
    }
}

/// The message type with discriminant `i`, if there is one.
pub open spec fn ty_of_index(i: nat) -> Option<MessageTy> {
    if i == 0 {
        Some(MessageTy::Block)
    } else if i == 1 {
        Some(MessageTy::ReqIV)
    } else if i == 2 {
        Some(MessageTy::RepIV)
    } else if i == 3 {
        Some(MessageTy::Hello)
    } else if i == 4 {
        Some(MessageTy::Goodbye)
    } else {
        None
    }
}

/// The wire form of a header: the discriminant in four big-endian bytes, then
/// the length in eight.
pub open spec fn encode_spec(m: Message) -> Seq<u8> {
    be_bytes(ty_index(m.ty) as nat, 4) + be_bytes(m.len as nat, 8)
}

/// The header that `b` encodes, if it is one.
pub open spec fn decode_spec(b: Seq<u8>) -> Option<Message> {
    if b.len() != MESSAGE_SIZE {
        None
    } else {
        match ty_of_index(be_value(b.subrange(0, 4))) {
            Some(ty) => Some(Message { ty, len: be_value(b.subrange(4, 12)) as u64 }),
            None => None,
        }
    }
}

/// Header encoding is a bijection between headers and the byte strings that
/// decode: every header encodes to exactly `MESSAGE_SIZE` bytes and decodes
/// back to itself, and every byte string that decodes is the encoding of
/// what it decodes to.
pub proof fn lemma_header_bijection(m: Message, b: Seq<u8>)
    ensures
        encode_spec(m).len() == MESSAGE_SIZE,
        decode_spec(encode_spec(m)) == Some(m),
        decode_spec(b) matches Some(d) ==> encode_spec(d) == b,
{
    lemma_pow256_values();
    let t = be_bytes(ty_index(m.ty) as nat, 4);
    let l = be_bytes(m.len as nat, 8);
    lemma_be_bytes_len(ty_index(m.ty) as nat, 4);
    lemma_be_bytes_len(m.len as nat, 8);
    let e = encode_spec(m);
    assert(e.subrange(0, 4) =~= t);
    assert(e.subrange(4, 12) =~= l);
    lemma_be_value_of_bytes(ty_index(m.ty) as nat, 4);
    lemma_be_value_of_bytes(m.len as nat, 8);
    if b.len() == MESSAGE_SIZE {
        let t2 = b.subrange(0, 4);
        let l2 = b.subrange(4, 12);
        lemma_be_bytes_of_value(t2);
        lemma_be_bytes_of_value(l2);
        lemma_be_value_bound(l2);
        assert(b =~= t2 + l2);
    }
}

/// Every header, decoded or built, encodes in exactly `MESSAGE_SIZE` bytes.
pub proof fn lemma_encode_len(m: Message)
    ensures
        encode_spec(m).len() == MESSAGE_SIZE,
{
    lemma_be_bytes_len(ty_index(m.ty) as nat, 4);
    lemma_be_bytes_len(m.len as nat, 8);
}

/// Relies on bincode's serializer, configured for fixed-width big-endian
/// integers: a `(u32, u64)` pair is written as four then eight bytes. With
/// no size limit, writing two integers into a `Vec` cannot fail.
#[verifier::external_body]
fn bincode_encode(tag: u32, len: u64) -> (r: Result<Vec<u8>, Box<bincode::ErrorKind>>)
    ensures
        r matches Ok(b) ==> b@ == be_bytes(tag as nat, 4) + be_bytes(len as nat, 8),
        r is Ok,
{
    bincode::DefaultOptions::new().with_fixint_encoding().with_big_endian().serialize(&(tag, len))
}

/// Relies on bincode's deserializer, configured for fixed-width big-endian
/// integers and rejecting trailing bytes: a `(u32, u64)` pair is read from
/// exactly twelve bytes, four then eight.
#[verifier::external_body]
fn bincode_decode(buf: &[u8]) -> (r: Result<(u32, u64), Box<bincode::ErrorKind>>)
    ensures
        r is Ok <==> buf@.len() == 12,
        r matches Ok((t, l)) ==> t as nat == be_value(buf@.subrange(0, 4)) && l as nat
            == be_value(buf@.subrange(4, 12)),
{
    bincode::DefaultOptions::new().with_fixint_encoding().with_big_endian().deserialize(buf)
}

/// The discriminant of `ty` on the wire.
pub fn ty_to_index(ty: MessageTy) -> (r: u32)
    ensures
        r == ty_index(ty),
{
    match ty {
        MessageTy::Block => 0,
        MessageTy::ReqIV => 1,
        MessageTy::RepIV => 2,
        MessageTy::Hello => 3,
        MessageTy::Goodbye => 4,
    }
}

/// The message type with discriminant `i`, if there is one.
pub fn ty_from_index(i: u32) -> (r: Option<MessageTy>)
    ensures
        r == ty_of_index(i as nat),
{
    match i {
        0 => Some(MessageTy::Block),
        1 => Some(MessageTy::ReqIV),
        2 => Some(MessageTy::RepIV),
        3 => Some(MessageTy::Hello),
        4 => Some(MessageTy::Goodbye),
        _ => None,
    }
}

/// Encodes a header into its `MESSAGE_SIZE` wire bytes.
pub fn encode_header(msg: &Message) -> (r: Result<Vec<u8>, ProtoError>)
    ensures
        r matches Ok(b) ==> b@ == encode_spec(*msg) && b@.len() == MESSAGE_SIZE,
        r is Ok,
{
    proof {
        lemma_encode_len(*msg);
    }
    match bincode_encode(ty_to_index(msg.ty), msg.len) {
        Ok(b) => Ok(b),
        Err(_) => Err(ProtoError::SerializeErr),
    }
}

/// Decodes a header from its wire bytes; anything but exactly
/// `MESSAGE_SIZE` bytes carrying a known type is refused.
pub fn decode_header(buf: &[u8]) -> (r: Result<Message, ProtoError>)
    ensures
        r == match decode_spec(buf@) {
            Some(m) => Ok::<Message, ProtoError>(m),
            None => Err(ProtoError::SerializeErr),
        },
{
    match bincode_decode(buf) {
        Ok((t, l)) => match ty_from_index(t) {
            Some(ty) => Ok(Message { ty, len: l }),
            None => Err(ProtoError::SerializeErr),
        },
        Err(_) => Err(ProtoError::SerializeErr),
    }
}

/// The startup check on the codec: the smallest and the largest legal
/// header both encode to exactly `MESSAGE_SIZE` bytes.
pub fn check_header_size() -> (r: Result<(), ProtoError>)
    ensures
        r is Ok,
{
    let smallest = Message { ty: MessageTy::Block, len: 0 };
    let largest = Message { ty: MessageTy::Goodbye, len: u64::MAX };
    let a = encode_header(&smallest)?;
    let b = encode_header(&largest)?;
    if a.len() == MESSAGE_SIZE && b.len() == MESSAGE_SIZE {
        Ok(())
    } else {
        Err(ProtoError::SerializeErr)
    }
}

} // verus!
