//! The receiving peer: hands out the session IV, checks the sender's key,
//! opens blocks to its output, and answers the goodbye.
use crate::aead::{frame_spec, open, opened_as, seal_frame, seal_of, sealed_as};
use crate::bytes::{be_bytes, be_u32_bytes, lemma_be_bytes_len};
use crate::codec::{decode_header, decode_spec, encode_header, encode_spec, lemma_header_bijection, Message, MessageTy};
use crate::error::ProtoError;
use crate::machine::{
    accepts, append_bytes, expect_header, frames_of, goodbye_header, header_verdict, hello_plain,
    joined, lemma_frames_push, lemma_joined_push, Need, State, Step,
};
use crate::nonce::{get_next_nonce, lemma_nonce_unique, nonce_bytes};
use crate::{BLOCK_SIZE, HELLO_LEN, IV_SIZE, KEY_LEN, MAGIC_BYTES, MESSAGE_SIZE, TAG_LEN};
use vstd::prelude::*;
use vstd::slice::slice_to_vec;

verus! {

/// Where the receiver stands in its session.
#[derive(Debug, Clone, Copy, PartialEq, Eq, Structural)]
pub enum ReceiverPhase {
    /// The sender's `ReqIV` is awaited.
    AwaitReqIv,
    /// The IV is sent; the sender's `Hello` header is awaited.
    AwaitHelloHeader,
    /// The sender's sealed `Hello` payload is awaited.
    AwaitHello,
    /// The next `Block` or `Goodbye` header is awaited.
    AwaitBlockHeader,
    /// The sealed payload of a `Block` is awaited.
    AwaitBlock,
    /// `Goodbye` is answered; the transport is to be closed.
    Finished,
}

/// The coarse state of a receiver in `phase`.
pub open spec fn receiver_state(phase: ReceiverPhase) -> State {
    match phase {
        ReceiverPhase::AwaitBlockHeader => State::Transmit,
        ReceiverPhase::AwaitBlock => State::Transmit,
        ReceiverPhase::Finished => State::WaitHangup,
        _ => State::WaitHello,
    }
}

/// Relies on rand's `random`: a value from the thread-local generator,
/// of which nothing is known.
#[verifier::external_body]
fn random_iv() -> (r: u32) {
    rand::random::<u32>()
}

/// The receiving half of a session, as a machine that performs no I/O.
///
/// Each step returns the bytes to write to the transport, the plaintext to
/// write to the output, and what to read next; the caller hands back what
/// it read.
pub struct Receiver {
    key: Vec<u8>,
    phase: ReceiverPhase,
    counter: u64,
    nonce: u32,
    block_len: usize,
    opened: Ghost<Seq<Seq<u8>>>,
    plains: Ghost<Seq<Seq<u8>>>,
    received: Ghost<Seq<u8>>,
}

impl Receiver {
    /// The pre-shared key.
    pub closed spec fn key(&self) -> Seq<u8> {
        self.key@
    }

    pub closed spec fn phase(&self) -> ReceiverPhase {
        self.phase
    }

    /// The number of AEAD operations performed so far.
    pub closed spec fn counter(&self) -> nat {
        self.counter as nat
    }

    /// The session IV, once chosen.
    pub closed spec fn iv(&self) -> u32 {
        self.nonce
    }

    /// The payload length of the `Block` whose payload is awaited.
    pub closed spec fn block_len(&self) -> nat {
        self.block_len as nat
    }

    /// The sealed payloads of the blocks opened so far, in order.
    pub closed spec fn opened(&self) -> Seq<Seq<u8>> {
        self.opened@
    }

    /// Their plaintexts, each written to the output.
    pub closed spec fn plains(&self) -> Seq<Seq<u8>> {
        self.plains@
    }

    /// All bytes taken from the transport since the handshake ended.
    pub closed spec fn received(&self) -> Seq<u8> {
        self.received@
    }

    /// All bytes written to the output.
    pub open spec fn output(&self) -> Seq<u8> {
        joined(self.plains())
    }

    /// The invariant of a receiver. Block `i` of the session opened under
    /// the nonce of AEAD operation `i + 3`, the two `Hello`s taking the first
    /// two, and what was taken from the transport after the handshake is the
    /// frames of those blocks, then the header being served.
    pub open spec fn wf(&self) -> bool {
        &&& self.key().len() == KEY_LEN
        &&& self.plains().len() == self.opened().len()
        &&& forall|i: int|
            0 <= i < self.opened().len() ==> opened_as(
                self.key(),
                nonce_bytes(self.iv(), (i + 3) as nat),
                #[trigger] self.opened()[i],
                self.plains()[i],
            )
        &&& forall|i: int|
            0 <= i < self.opened().len() ==> (#[trigger] self.opened()[i]).len() <= BLOCK_SIZE
                + TAG_LEN
        &&& match self.phase() {
            ReceiverPhase::AwaitReqIv | ReceiverPhase::AwaitHelloHeader
            | ReceiverPhase::AwaitHello => {
                &&& self.counter() == 0
                &&& self.opened().len() == 0
                &&& self.received().len() == 0
            },
            ReceiverPhase::AwaitBlockHeader => {
                &&& self.counter() == 2 + self.opened().len()
                &&& self.received() == frames_of(self.opened())
            },
            ReceiverPhase::AwaitBlock => {
                &&& self.counter() == 2 + self.opened().len()
                &&& self.block_len() <= BLOCK_SIZE + TAG_LEN
                &&& self.received() == frames_of(self.opened()) + encode_spec(
                    Message { ty: MessageTy::Block, len: self.block_len() as u64 },
                )
            },
            ReceiverPhase::Finished => {
                &&& self.counter() == 2 + self.opened().len()
                &&& self.received() == frames_of(self.opened()) + goodbye_header()
            },
        }
    }

    /// What the receiver needs next from its caller.
    pub open spec fn need(&self) -> Need {
        match self.phase() {
            ReceiverPhase::AwaitReqIv => Need::Transport(MESSAGE_SIZE),
            ReceiverPhase::AwaitHelloHeader => Need::Transport(MESSAGE_SIZE),
            ReceiverPhase::AwaitHello => Need::Transport(HELLO_LEN),
            ReceiverPhase::AwaitBlockHeader => Need::Transport(MESSAGE_SIZE),
            ReceiverPhase::AwaitBlock => Need::Transport(self.block_len() as usize),
            ReceiverPhase::Finished => Need::Close,
        }
    }

    /// `self` is `s` moved to `phase`, with its key, counter, IV and opened
    /// blocks as they were.
    pub open spec fn moved_on_from(&self, s: Receiver, phase: ReceiverPhase) -> bool {
        &&& self.phase() == phase
        &&& self.key() == s.key()
        &&& self.counter() == s.counter()
        &&& self.iv() == s.iv()
        &&& self.opened() == s.opened()
        &&& self.plains() == s.plains()
    }

    /// A receiver for a session under `key`, which must be a 256-bit key.
    pub fn new(key: &[u8]) -> (r: Result<Receiver, ProtoError>)
        ensures
            key@.len() == KEY_LEN <==> r is Ok,
            r matches Err(e) ==> e == ProtoError::CryptoErr,
            r matches Ok(v) ==> v.wf() && v.key() == key@ && v.phase()
                == ReceiverPhase::AwaitReqIv,
    {
        if key.len() != KEY_LEN {
            return Err(ProtoError::CryptoErr);
        }
        Ok(Receiver {
            key: slice_to_vec(key),
            phase: ReceiverPhase::AwaitReqIv,
            counter: 0,
            nonce: 0,
            block_len: 0,
            opened: Ghost(Seq::empty()),
            plains: Ghost(Seq::empty()),
            received: Ghost(Seq::empty()),
        })
    }

    /// The coarse state of the receiver.
    pub fn state(&self) -> (r: State)
        ensures
            r == receiver_state(self.phase()),
    {
        match self.phase {
            ReceiverPhase::AwaitBlockHeader => State::Transmit,
            ReceiverPhase::AwaitBlock => State::Transmit,
            ReceiverPhase::Finished => State::WaitHangup,
            _ => State::WaitHello,
        }
    }

    /// The first step: nothing to send; the sender's `ReqIV` header is awaited.
    pub fn start(&self) -> (r: Step)
        ensures
            r.send@.len() == 0,
            r.output@.len() == 0,
            r.need == self.need(),
    {
        let need = match self.phase {
            ReceiverPhase::AwaitReqIv => Need::Transport(MESSAGE_SIZE),
            ReceiverPhase::AwaitHelloHeader => Need::Transport(MESSAGE_SIZE),
            ReceiverPhase::AwaitHello => Need::Transport(HELLO_LEN),
            ReceiverPhase::AwaitBlockHeader => Need::Transport(MESSAGE_SIZE),
            ReceiverPhase::AwaitBlock => Need::Transport(self.block_len),
            ReceiverPhase::Finished => Need::Close,
        };
        Step { send: Vec::new(), output: Vec::new(), need }
    }

    /// Takes the bytes that the last step asked for and makes the next step.
    /// The session IV is drawn at random when the sender asks for it.
    pub fn advance(&mut self, data: &[u8]) -> (r: Result<Step, ProtoError>)
        requires
            old(self).wf(),
            accepts(old(self).need(), data@.len()),
        ensures
            r matches Ok(st) ==> {
                &&& final(self).wf()
                &&& final(self).key() == old(self).key()
                &&& st.need == final(self).need()
            },
            receiver_step(*old(self), data@, *final(self), r),
    {
        match self.phase {
            ReceiverPhase::AwaitReqIv => {
                let iv = random_iv();
                self.recv_req_iv(data, iv)
            },
            ReceiverPhase::AwaitHelloHeader => {
                expect_header(data, Message { ty: MessageTy::Hello, len: HELLO_LEN as u64 })?;
                self.phase = ReceiverPhase::AwaitHello;
                Ok(Step { send: Vec::new(), output: Vec::new(), need: Need::Transport(HELLO_LEN) })
            },
            ReceiverPhase::AwaitHello => self.recv_client_hello(data),
            ReceiverPhase::AwaitBlockHeader => self.recv_block_header(data),
            _ => self.recv_block(data),
        }
    }

    /// Answers the sender's `ReqIV` with `iv`, which becomes the session IV.
    pub fn recv_req_iv(&mut self, data: &[u8], iv: u32) -> (r: Result<Step, ProtoError>)
        requires
            old(self).wf(),
            old(self).phase() == ReceiverPhase::AwaitReqIv,
        ensures
            r matches Ok(st) ==> {
                &&& final(self).wf()
                &&& final(self).key() == old(self).key()
                &&& st.need == final(self).need()
                &&& final(self).iv() == iv
            },
            receiver_step(*old(self), data@, *final(self), r),
    {
        expect_header(data, Message { ty: MessageTy::ReqIV, len: 0 })?;
        let mut send = encode_header(&Message { ty: MessageTy::RepIV, len: IV_SIZE as u64 })?;
        let iv_bytes = be_u32_bytes(iv);
        append_bytes(&mut send, iv_bytes.as_slice());
        self.nonce = iv;
        self.phase = ReceiverPhase::AwaitHelloHeader;
        Ok(Step { send, output: Vec::new(), need: Need::Transport(MESSAGE_SIZE) })
    }

    /// Opens the sender's `Hello` under the first nonce and answers with the
    /// sealed magic bytes under the second; the handshake is then complete.
    fn recv_client_hello(&mut self, data: &[u8]) -> (r: Result<Step, ProtoError>)
        requires
            old(self).wf(),
            old(self).phase() == ReceiverPhase::AwaitHello,
            data@.len() == HELLO_LEN,
        ensures
            r matches Ok(st) ==> {
                &&& final(self).wf()
                &&& final(self).key() == old(self).key()
                &&& st.need == final(self).need()
            },
            receiver_step(*old(self), data@, *final(self), r),
    {
        let ghost s0 = *self;
        let nonce = get_next_nonce(&mut self.nonce, &mut self.counter)?;
        proof {
            lemma_nonce_unique(self.nonce, self.counter, self.counter);
        }
        let hello = open(self.key.as_slice(), nonce.as_slice(), data)?;
        proof {
            assert(seal_of(s0.key(), nonce_bytes(s0.iv(), 1), hello@) == data@);
        }
        let nonce = get_next_nonce(&mut self.nonce, &mut self.counter)?;
        proof {
            lemma_nonce_unique(self.nonce, self.counter, self.counter);
            lemma_be_bytes_len(MAGIC_BYTES as nat, 4);
        }
        let magic = be_u32_bytes(MAGIC_BYTES);
        let send = seal_frame(MessageTy::Hello, self.key.as_slice(), nonce.as_slice(), magic.as_slice())?;
        self.phase = ReceiverPhase::AwaitBlockHeader;
        proof {
            assert(self.received@ =~= frames_of(self.opened@));
        }
        Ok(Step { send, output: Vec::new(), need: Need::Transport(MESSAGE_SIZE) })
    }

    /// Reads a header in the transfer: `Goodbye` is answered and ends the
    /// session, with no further block taken; a `Block` of legal length has its
    /// payload awaited.
    fn recv_block_header(&mut self, data: &[u8]) -> (r: Result<Step, ProtoError>)
        requires
            old(self).wf(),
            old(self).phase() == ReceiverPhase::AwaitBlockHeader,
        ensures
            r matches Ok(st) ==> {
                &&& final(self).wf()
                &&& final(self).key() == old(self).key()
                &&& st.need == final(self).need()
            },
            receiver_step(*old(self), data@, *final(self), r),
    {
        let m = decode_header(data)?;
        proof {
            lemma_header_bijection(m, data@);
        }
        if m.ty == MessageTy::Goodbye && m.len == 0 {
            let send = encode_header(&Message { ty: MessageTy::Goodbye, len: 0 })?;
            self.received = Ghost(self.received@ + data@);
            self.phase = ReceiverPhase::Finished;
            Ok(Step { send, output: Vec::new(), need: Need::Close })
        } else if m.ty == MessageTy::Block && m.len <= (BLOCK_SIZE + TAG_LEN) as u64 {
            self.received = Ghost(self.received@ + data@);
            self.block_len = m.len as usize;
            self.phase = ReceiverPhase::AwaitBlock;
            Ok(Step { send: Vec::new(), output: Vec::new(), need: Need::Transport(self.block_len) })
        } else {
            Err(ProtoError::UnexpectedMessage)
        }
    }

    /// Opens a block's payload under the next nonce and hands its plaintext
    /// to the output.
    fn recv_block(&mut self, data: &[u8]) -> (r: Result<Step, ProtoError>)
        requires
            old(self).wf(),
            old(self).phase() == ReceiverPhase::AwaitBlock,
            data@.len() == old(self).block_len(),
        ensures
            r matches Ok(st) ==> {
                &&& final(self).wf()
                &&& final(self).key() == old(self).key()
                &&& st.need == final(self).need()
            },
            receiver_step(*old(self), data@, *final(self), r),
    {
        let ghost s0 = *self;
        let nonce = get_next_nonce(&mut self.nonce, &mut self.counter)?;
        proof {
            lemma_nonce_unique(self.nonce, self.counter, self.counter);
        }
        let plain = open(self.key.as_slice(), nonce.as_slice(), data)?;
        proof {
            assert(seal_of(s0.key(), nonce_bytes(s0.iv(), s0.counter() + 1), plain@) == data@);
            lemma_joined_push(self.plains@, plain@);
            lemma_frames_push(self.opened@, data@);
            assert(self.received@ + data@ =~= frames_of(self.opened@.push(data@)));
        }
        self.opened = Ghost(self.opened@.push(data@));
        self.plains = Ghost(self.plains@.push(plain@));
        self.received = Ghost(self.received@ + data@);
        self.phase = ReceiverPhase::AwaitBlockHeader;
        Ok(Step { send: Vec::new(), output: plain, need: Need::Transport(MESSAGE_SIZE) })
    }
}

/// What one step of a receiver does, by the phase it was in. A received
/// header that does not decode, or is not legal where it stands, fails with
/// the error `header_verdict` gives; an open that fails is a crypto error;
/// a counter that can no longer advance is a crypto error. A refused header
/// leaves the receiver as it was. Otherwise:
/// - after `ReqIV`, the IV is sent in `RepIV`;
/// - after the `Hello` header, its sealed payload is awaited;
/// - the `Hello` payload must open under the nonce of operation 1, and the
///   receiver answers with its own `Hello` under the nonce of operation 2,
///   and awaits blocks with the counter at 2 and nothing opened yet;
/// - a `Goodbye` header is answered with `Goodbye` and ends the session:
///   no block is taken after it; a `Block` header of legal length has its
///   payload awaited;
/// - a block's payload must open under the next nonce, and its plaintext is
///   the output.
pub open spec fn receiver_step(
    s: Receiver,
    data: Seq<u8>,
    t: Receiver,
    r: Result<Step, ProtoError>,
) -> bool {
    match s.phase() {
        ReceiverPhase::AwaitReqIv => {
            let v = header_verdict(data, Message { ty: MessageTy::ReqIV, len: 0 });
            &&& v is Ok <==> r is Ok
            &&& v matches Err(e) ==> r == Err::<Step, ProtoError>(e)
            &&& r is Err ==> t == s
            &&& r matches Ok(st) ==> {
                &&& t.phase() == ReceiverPhase::AwaitHelloHeader
                &&& t.counter() == 0
                &&& st.send@ == encode_spec(Message { ty: MessageTy::RepIV, len: IV_SIZE as u64 })
                    + be_bytes(t.iv() as nat, 4)
                &&& st.output@.len() == 0
            }
        },
        ReceiverPhase::AwaitHelloHeader => {
            let v = header_verdict(data, Message { ty: MessageTy::Hello, len: HELLO_LEN as u64 });
            &&& v is Ok <==> r is Ok
            &&& v matches Err(e) ==> r == Err::<Step, ProtoError>(e)
            &&& r is Err ==> t == s
            &&& r matches Ok(st) ==> {
                &&& st.send@.len() == 0
                &&& st.output@.len() == 0
                &&& t.moved_on_from(s, ReceiverPhase::AwaitHello)
                &&& t.block_len() == s.block_len()
                &&& t.received() == s.received()
            }
        },
        ReceiverPhase::AwaitHello => {
            let n = nonce_bytes(s.iv(), 2);
            let opens = exists|p: Seq<u8>| seal_of(s.key(), nonce_bytes(s.iv(), 1), p) == data;
            &&& r is Ok <==> opens
            &&& r matches Err(e) ==> e == ProtoError::CryptoErr
            &&& r matches Ok(st) ==> {
                &&& t.phase() == ReceiverPhase::AwaitBlockHeader
                &&& t.iv() == s.iv()
                &&& t.counter() == 2
                &&& t.opened().len() == 0
                &&& t.plains().len() == 0
                &&& t.received().len() == 0
                &&& sealed_as(s.key(), n, hello_plain(), seal_of(s.key(), n, hello_plain()))
                &&& st.send@ == frame_spec(MessageTy::Hello, seal_of(s.key(), n, hello_plain()))
                &&& st.output@.len() == 0
            }
        },
        ReceiverPhase::AwaitBlockHeader => match decode_spec(data) {
            None => r == Err::<Step, ProtoError>(ProtoError::SerializeErr) && t == s,
            Some(m) => if m == (Message { ty: MessageTy::Goodbye, len: 0 }) {
                &&& r is Ok
                &&& r matches Ok(st) ==> {
                    &&& st.send@ == goodbye_header()
                    &&& st.output@.len() == 0
                    &&& st.need == Need::Close
                    &&& t.moved_on_from(s, ReceiverPhase::Finished)
                    &&& t.received() == s.received() + data
                }
            } else if m.ty == MessageTy::Block && m.len <= BLOCK_SIZE + TAG_LEN {
                &&& r is Ok
                &&& r matches Ok(st) ==> {
                    &&& st.send@.len() == 0
                    &&& st.output@.len() == 0
                    &&& t.moved_on_from(s, ReceiverPhase::AwaitBlock)
                    &&& t.block_len() == m.len
                    &&& t.received() == s.received() + data
                }
            } else {
                r == Err::<Step, ProtoError>(ProtoError::UnexpectedMessage) && t == s
            },
        },
        ReceiverPhase::AwaitBlock => {
            let n = nonce_bytes(s.iv(), s.counter() + 1);
            let opens = exists|p: Seq<u8>| seal_of(s.key(), n, p) == data;
            &&& r is Ok ==> opens
            &&& opens && s.counter() < u64::MAX ==> r is Ok
            &&& r matches Err(e) ==> e == ProtoError::CryptoErr
            &&& r matches Ok(st) ==> {
                &&& t.phase() == ReceiverPhase::AwaitBlockHeader
                &&& t.iv() == s.iv()
                &&& t.counter() == s.counter() + 1
                &&& opened_as(s.key(), n, data, st.output@)
                &&& t.opened() == s.opened().push(data)
                &&& t.plains() == s.plains().push(st.output@)
                &&& t.output() == s.output() + st.output@
                &&& t.received() == s.received() + data
                &&& st.send@.len() == 0
            }
        },
        ReceiverPhase::Finished => false,
    }
}

} // verus!
