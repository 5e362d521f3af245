//! Encrypted one-way byte transfer over a reliable datagram transport.
//!
//! The library holds the wire codec, the per-session nonce sequence, the
//! AEAD framing of blocks and the two session state machines (sender and
//! receiver). The machines perform no I/O: each step says what to write to
//! the transport or the output and what to read next, and the caller hands
//! back the bytes it read.
use vstd::prelude::*;

pub mod error;
pub mod bytes;
pub mod codec;
pub mod nonce;
pub mod aead;
pub mod machine;
pub mod sender;
pub mod receiver;
pub mod session;

verus! {

/// Largest plaintext carried by one `Block` message (128 KiB).
pub const BLOCK_SIZE: usize = 128 * 1024;

/// Length of the AES-256-GCM authentication tag appended to each sealed payload.
pub const TAG_LEN: usize = 16;

/// Size of an encoded message header on the wire.
pub const MESSAGE_SIZE: usize = 12;

/// Plaintext of the encrypted `Hello` exchanged by both peers.
pub const MAGIC_BYTES: u32 = 0xDEADBEEF;

/// Size of the magic bytes on the wire.
pub const MAGIC_LEN: usize = 4;

/// Payload length of a `Hello` message: the sealed magic bytes.
pub const HELLO_LEN: usize = MAGIC_LEN + TAG_LEN;

/// Size of the session IV sent in the `RepIV` payload.
pub const IV_SIZE: usize = 4;

/// Size of the pre-shared AES-256 key.
pub const KEY_LEN: usize = 32;

/// Size of an AEAD nonce.
pub const NONCE_LEN: usize = 12;

} // verus!
