use vstd::prelude::*;

verus! {

/// What went wrong in a session. Every error is fatal to the session.
#[derive(Debug, Clone, Copy, PartialEq, Eq, Structural)]
pub enum ProtoError {
    /// An AEAD open failed (tag mismatch), or the key was unusable.
    CryptoErr,
    /// The input or the output sink failed.
    IoErr,
    /// A header did not decode or encode.
    SerializeErr,
    /// The transport failed to connect, bind, accept, read, write or close.
    SocketErr,
    /// The network address did not resolve.
    AddressErr,
    /// A header's type or length is not legal in the current state.
    UnexpectedMessage,
}

} // verus!
