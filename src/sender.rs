//! The sending peer: asks for the session IV, proves knowledge of the key,
//! cuts its input into blocks, seals and frames them, and says goodbye.
use crate::aead::{frame_spec, open, seal_frame, seal_of, sealed_as};
use crate::bytes::{be_u32_bytes, be_value, read_be_u32};
use crate::codec::{encode_header, Message, MessageTy};
use crate::error::ProtoError;
use crate::machine::{
    accepts, append_bytes, chunks_of, expect_header, frames_of, goodbye_header, header_verdict,
    hello_plain, joined, lemma_chunks_of_full_blocks, lemma_frames_push, lemma_joined_push, Need,
    State, Step,
};
use crate::bytes::lemma_be_bytes_len;
use crate::nonce::{get_next_nonce, lemma_nonce_unique, nonce_bytes};
use crate::{BLOCK_SIZE, HELLO_LEN, IV_SIZE, KEY_LEN, MAGIC_BYTES, MESSAGE_SIZE};
use vstd::prelude::*;
use vstd::slice::slice_to_vec;

verus! {

/// Where the sender stands in its session.
#[derive(Debug, Clone, Copy, PartialEq, Eq, Structural)]
pub enum SenderPhase {
    /// Nothing has been sent yet.
    Start,
    /// `ReqIV` is sent; the `RepIV` header is awaited.
    AwaitRepIvHeader,
    /// The four IV bytes are awaited.
    AwaitIv,
    /// The sender's `Hello` is sent; the receiver's header is awaited.
    AwaitHelloHeader,
    /// The receiver's sealed `Hello` payload is awaited.
    AwaitHello,
    /// Input is read, sealed and sent block by block.
    Transmit,
    /// `Goodbye` is sent; the receiver's `Goodbye` is awaited.
    AwaitGoodbye,
    /// The session is over.
    Finished,
}

/// The coarse state of a sender in `phase`.
pub open spec fn sender_state(phase: SenderPhase) -> State {
    match phase {
        SenderPhase::Transmit => State::Transmit,
        SenderPhase::AwaitGoodbye => State::WaitHangup,
        SenderPhase::Finished => State::WaitHangup,
        _ => State::WaitHello,
    }
}

/// The sending half of a session, as a machine that performs no I/O.
///
/// Each step returns the bytes to write to the transport and what to read
/// next; the caller hands back what it read. Input is gathered into blocks
/// of `BLOCK_SIZE` bytes; each full block, and at the end of the input the
/// shorter rest, is sealed under the next nonce and sent as one `Block`
/// frame.
pub struct Sender {
    key: Vec<u8>,
    phase: SenderPhase,
    counter: u64,
    nonce: u32,
    block: Vec<u8>,
    input: Ghost<Seq<u8>>,
    plains: Ghost<Seq<Seq<u8>>>,
    sealed: Ghost<Seq<Seq<u8>>>,
    sent: Ghost<Seq<u8>>,
}

impl Sender {
    /// The pre-shared key.
    pub closed spec fn key(&self) -> Seq<u8> {
        self.key@
    }

    pub closed spec fn phase(&self) -> SenderPhase {
        self.phase
    }

    /// The number of AEAD operations performed so far.
    pub closed spec fn counter(&self) -> nat {
        self.counter as nat
    }

    /// The session IV, once the receiver has sent it.
    pub closed spec fn iv(&self) -> u32 {
        self.nonce
    }

    /// Input gathered but not yet sealed.
    pub closed spec fn pending(&self) -> Seq<u8> {
        self.block@
    }

    /// All input handed in so far.
    pub closed spec fn input(&self) -> Seq<u8> {
        self.input@
    }

    /// The plaintexts of the blocks sealed so far, in order.
    pub closed spec fn plains(&self) -> Seq<Seq<u8>> {
        self.plains@
    }

    /// The sealed payloads of those blocks.
    pub closed spec fn sealed(&self) -> Seq<Seq<u8>> {
        self.sealed@
    }

    /// All bytes sent to the transport since the handshake ended.
    pub closed spec fn sent(&self) -> Seq<u8> {
        self.sent@
    }

    /// The invariant of a sender. Block `i` of the session is sealed under
    /// the nonce of AEAD operation `i + 3`, the two `Hello`s taking the first
    /// two; what was sent after the handshake is the frames of those blocks,
    /// then `Goodbye`; and the blocks are the input cut into `BLOCK_SIZE`
    /// pieces.
    pub open spec fn wf(&self) -> bool {
        &&& self.key().len() == KEY_LEN
        &&& self.plains().len() == self.sealed().len()
        &&& forall|i: int|
            0 <= i < self.sealed().len() ==> sealed_as(
                self.key(),
                nonce_bytes(self.iv(), (i + 3) as nat),
                #[trigger] self.plains()[i],
                self.sealed()[i],
            )
        &&& match self.phase() {
            SenderPhase::Start | SenderPhase::AwaitRepIvHeader | SenderPhase::AwaitIv => {
                &&& self.counter() == 0
                &&& self.sealed().len() == 0
                &&& self.input().len() == 0
                &&& self.pending().len() == 0
                &&& self.sent().len() == 0
            },
            SenderPhase::AwaitHelloHeader | SenderPhase::AwaitHello => {
                &&& self.counter() == 1
                &&& self.sealed().len() == 0
                &&& self.input().len() == 0
                &&& self.pending().len() == 0
                &&& self.sent().len() == 0
            },
            SenderPhase::Transmit => {
                &&& self.counter() == 2 + self.sealed().len()
                &&& forall|i: int|
                    0 <= i < self.plains().len() ==> (#[trigger] self.plains()[i]).len()
                        == BLOCK_SIZE
                &&& self.pending().len() < BLOCK_SIZE
                &&& self.input() == joined(self.plains()) + self.pending()
                &&& self.sent() == frames_of(self.sealed())
            },
            SenderPhase::AwaitGoodbye | SenderPhase::Finished => {
                &&& self.counter() == 2 + self.sealed().len()
                &&& self.pending().len() == 0
                &&& self.plains() == chunks_of(self.input())
                &&& self.sent() == frames_of(self.sealed()) + goodbye_header()
            },
        }
    }

    /// What the sender needs next from its caller.
    pub open spec fn need(&self) -> Need {
        match self.phase() {
            SenderPhase::Start => Need::Done,
            SenderPhase::AwaitRepIvHeader => Need::Transport(MESSAGE_SIZE),
            SenderPhase::AwaitIv => Need::Transport(IV_SIZE),
            SenderPhase::AwaitHelloHeader => Need::Transport(MESSAGE_SIZE),
            SenderPhase::AwaitHello => Need::Transport(HELLO_LEN),
            SenderPhase::Transmit => Need::Input((BLOCK_SIZE - self.pending().len()) as usize),
            SenderPhase::AwaitGoodbye => Need::Transport(MESSAGE_SIZE),
            SenderPhase::Finished => Need::Done,
        }
    }

    /// `self` is `s` moved to `phase`, with everything else as it was.
    pub open spec fn moved_on_from(&self, s: Sender, phase: SenderPhase) -> bool {
        &&& self.phase() == phase
        &&& self.key() == s.key()
        &&& self.counter() == s.counter()
        &&& self.iv() == s.iv()
        &&& self.pending() == s.pending()
        &&& self.input() == s.input()
        &&& self.plains() == s.plains()
        &&& self.sealed() == s.sealed()
        &&& self.sent() == s.sent()
    }

    /// A sender for a session under `key`, which must be a 256-bit key.
    pub fn new(key: &[u8]) -> (r: Result<Sender, ProtoError>)
        ensures
            key@.len() == KEY_LEN <==> r is Ok,
            r matches Err(e) ==> e == ProtoError::CryptoErr,
            r matches Ok(s) ==> s.wf() && s.key() == key@ && s.phase() == SenderPhase::Start,
    {
        if key.len() != KEY_LEN {
            return Err(ProtoError::CryptoErr);
        }
        Ok(Sender {
            key: slice_to_vec(key),
            phase: SenderPhase::Start,
            counter: 0,
            nonce: 0,
            block: Vec::new(),
            input: Ghost(Seq::empty()),
            plains: Ghost(Seq::empty()),
            sealed: Ghost(Seq::empty()),
            sent: Ghost(Seq::empty()),
        })
    }

    /// The coarse state of the sender.
    pub fn state(&self) -> (r: State)
        ensures
            r == sender_state(self.phase()),
    {
        match self.phase {
            SenderPhase::Transmit => State::Transmit,
            SenderPhase::AwaitGoodbye => State::WaitHangup,
            SenderPhase::Finished => State::WaitHangup,
            _ => State::WaitHello,
        }
    }

    /// Opens the handshake: the first step sends `ReqIV` and waits for the
    /// receiver's `RepIV` header.
    pub fn start(&mut self) -> (r: Result<Step, ProtoError>)
        requires
            old(self).wf(),
            old(self).phase() == SenderPhase::Start,
        ensures
            r is Ok,
            r matches Ok(st) ==> {
                &&& final(self).wf()
                &&& final(self).moved_on_from(*old(self), SenderPhase::AwaitRepIvHeader)
                &&& final(self).key() == old(self).key()
                &&& st.send@ == crate::codec::encode_spec(Message { ty: MessageTy::ReqIV, len: 0 })
                &&& st.output@.len() == 0
                &&& st.need == final(self).need()
            },
    {
        let send = encode_header(&Message { ty: MessageTy::ReqIV, len: 0 })?;
        self.phase = SenderPhase::AwaitRepIvHeader;
        Ok(Step { send, output: Vec::new(), need: Need::Transport(MESSAGE_SIZE) })
    }

    /// Takes the bytes that the last step asked for and makes the next step.
    pub fn advance(&mut self, data: &[u8]) -> (r: Result<Step, ProtoError>)
        requires
            old(self).wf(),
            accepts(old(self).need(), data@.len()),
        ensures
            r matches Ok(st) ==> {
                &&& final(self).wf()
                &&& final(self).key() == old(self).key()
                &&& st.need == final(self).need()
                &&& st.output@.len() == 0
            },
            sender_step(*old(self), data@, *final(self), r),
    {
        match self.phase {
            SenderPhase::AwaitRepIvHeader => {
                expect_header(data, Message { ty: MessageTy::RepIV, len: IV_SIZE as u64 })?;
                self.phase = SenderPhase::AwaitIv;
                Ok(Step { send: Vec::new(), output: Vec::new(), need: Need::Transport(IV_SIZE) })
            },
            SenderPhase::AwaitIv => self.send_hello(data),
            SenderPhase::AwaitHelloHeader => {
                expect_header(data, Message { ty: MessageTy::Hello, len: HELLO_LEN as u64 })?;
                self.phase = SenderPhase::AwaitHello;
                Ok(Step { send: Vec::new(), output: Vec::new(), need: Need::Transport(HELLO_LEN) })
            },
            SenderPhase::AwaitHello => self.recv_hello(data),
            SenderPhase::Transmit => self.transmit(data),
            _ => {
                expect_header(data, Message { ty: MessageTy::Goodbye, len: 0 })?;
                self.phase = SenderPhase::Finished;
                Ok(Step { send: Vec::new(), output: Vec::new(), need: Need::Done })
            },
        }
    }

    /// Takes the IV and sends the sealed magic bytes under the first nonce.
    fn send_hello(&mut self, data: &[u8]) -> (r: Result<Step, ProtoError>)
        requires
            old(self).wf(),
            old(self).phase() == SenderPhase::AwaitIv,
            data@.len() == IV_SIZE,
        ensures
            r matches Ok(st) ==> {
                &&& final(self).wf()
                &&& final(self).key() == old(self).key()
                &&& st.need == final(self).need()
                &&& st.output@.len() == 0
            },
            sender_step(*old(self), data@, *final(self), r),
    {
        self.nonce = read_be_u32(data);
        let nonce = get_next_nonce(&mut self.nonce, &mut self.counter)?;
        let magic = be_u32_bytes(MAGIC_BYTES);
        proof {
            lemma_be_bytes_len(MAGIC_BYTES as nat, 4);
            lemma_nonce_unique(self.nonce, self.counter, self.counter);
        }
        let send = seal_frame(MessageTy::Hello, self.key.as_slice(), nonce.as_slice(), magic.as_slice())?;
        self.phase = SenderPhase::AwaitHelloHeader;
        Ok(Step { send, output: Vec::new(), need: Need::Transport(MESSAGE_SIZE) })
    }

    /// Opens the receiver's `Hello` under the second nonce; the handshake is
    /// then complete.
    fn recv_hello(&mut self, data: &[u8]) -> (r: Result<Step, ProtoError>)
        requires
            old(self).wf(),
            old(self).phase() == SenderPhase::AwaitHello,
            data@.len() == HELLO_LEN,
        ensures
            r matches Ok(st) ==> {
                &&& final(self).wf()
                &&& final(self).key() == old(self).key()
                &&& st.need == final(self).need()
                &&& st.output@.len() == 0
            },
            sender_step(*old(self), data@, *final(self), r),
    {
        let ghost s0 = *self;
        let nonce = get_next_nonce(&mut self.nonce, &mut self.counter)?;
        proof {
            lemma_nonce_unique(self.nonce, self.counter, self.counter);
        }
        let magic = open(self.key.as_slice(), nonce.as_slice(), data)?;
        self.phase = SenderPhase::Transmit;
        proof {
            assert(seal_of(s0.key(), nonce_bytes(s0.iv(), 2), magic@) == data@);
            assert(self.input@ =~= joined(self.plains@) + self.block@);
            assert(self.sent@ =~= frames_of(self.sealed@));
        }
        Ok(Step { send: Vec::new(), output: Vec::new(), need: Need::Input(BLOCK_SIZE) })
    }

    /// Gathers input into the pending block. A full block, or at the end of
    /// the input a non-empty rest, is sealed and sent; at the end of the
    /// input `Goodbye` follows.
    fn transmit(&mut self, data: &[u8]) -> (r: Result<Step, ProtoError>)
        requires
            old(self).wf(),
            old(self).phase() == SenderPhase::Transmit,
            data@.len() + old(self).pending().len() <= BLOCK_SIZE,
        ensures
            r matches Ok(st) ==> {
                &&& final(self).wf()
                &&& final(self).key() == old(self).key()
                &&& st.need == final(self).need()
                &&& st.output@.len() == 0
            },
            sender_step(*old(self), data@, *final(self), r),
    {
        let ghost old_plains = self.plains@;
        let ghost old_block = self.block@;
        append_bytes(&mut self.block, data);
        self.input = Ghost(self.input@ + data@);
        proof {
            assert(self.input@ =~= joined(old_plains) + self.block@);
        }
        let mut send: Vec<u8> = Vec::new();
        if self.block.len() == BLOCK_SIZE || (data.len() == 0 && self.block.len() > 0) {
            let nonce = get_next_nonce(&mut self.nonce, &mut self.counter)?;
            proof {
                lemma_nonce_unique(self.nonce, self.counter, self.counter);
            }
            let frame = seal_frame(MessageTy::Block, self.key.as_slice(), nonce.as_slice(), self.block.as_slice())?;
            let ghost c = seal_of(self.key@, nonce@, self.block@);
            proof {
                lemma_joined_push(self.plains@, self.block@);
                lemma_frames_push(self.sealed@, c);
            }
            self.plains = Ghost(self.plains@.push(self.block@));
            self.sealed = Ghost(self.sealed@.push(c));
            send = frame;
            self.block.clear();
            proof {
                assert(self.input@ =~= joined(self.plains@) + self.block@);
                assert(self.sent@ + send@ =~= frames_of(self.sealed@));
            }
        }
        assert(self.sent@ + send@ =~= frames_of(self.sealed@));
        if data.len() == 0 {
            let goodbye = encode_header(&Message { ty: MessageTy::Goodbye, len: 0 })?;
            append_bytes(&mut send, goodbye.as_slice());
            self.sent = Ghost(self.sent@ + send@);
            assert(self.sent@ =~= frames_of(self.sealed@) + goodbye_header());
            self.phase = SenderPhase::AwaitGoodbye;
            proof {
                lemma_chunks_of_full_blocks(old_plains, old_block);
                assert(self.input@ =~= joined(old_plains) + old_block);
            }
            Ok(Step { send, output: Vec::new(), need: Need::Transport(MESSAGE_SIZE) })
        } else {
            self.sent = Ghost(self.sent@ + send@);
            let room = BLOCK_SIZE - self.block.len();
            Ok(Step { send, output: Vec::new(), need: Need::Input(room) })
        }
    }
}

/// What one step of a sender does, by the phase it was in. A received
/// header that does not decode, or is not the one legal header, fails with
/// the error `header_verdict` gives; an open that fails is a crypto error;
/// a counter that can no longer advance is a crypto error. A refused header
/// leaves the sender as it was. Otherwise:
/// - after the `RepIV` header, the four IV bytes are awaited;
/// - the IV is taken and the sealed magic bytes sent as `Hello` under the
///   nonce of operation 1;
/// - after the `Hello` header, its sealed payload is awaited;
/// - the `Hello` payload must open under the nonce of operation 2, and the
///   sender starts to transmit, with the counter at 2 and nothing gathered,
///   sealed or sent yet;
/// - input is taken in, and what is sent extends what was sent before; the
///   end of the input leads to the goodbye;
/// - the receiver's `Goodbye` ends the session.
pub open spec fn sender_step(
    s: Sender,
    data: Seq<u8>,
    t: Sender,
    r: Result<Step, ProtoError>,
) -> bool {
    match s.phase() {
        SenderPhase::AwaitRepIvHeader => {
            let v = header_verdict(data, Message { ty: MessageTy::RepIV, len: IV_SIZE as u64 });
            &&& v is Ok <==> r is Ok
            &&& v matches Err(e) ==> r == Err::<Step, ProtoError>(e)
            &&& r is Err ==> t == s
            &&& r matches Ok(st) ==> st.send@.len() == 0 && t.moved_on_from(s, SenderPhase::AwaitIv)
        },
        SenderPhase::AwaitIv => {
            let n = nonce_bytes(t.iv(), 1);
            &&& r is Ok
            &&& r matches Ok(st) ==> {
                &&& t.phase() == SenderPhase::AwaitHelloHeader
                &&& t.iv() as nat == be_value(data)
                &&& t.counter() == 1
                &&& sealed_as(s.key(), n, hello_plain(), seal_of(s.key(), n, hello_plain()))
                &&& st.send@ == frame_spec(MessageTy::Hello, seal_of(s.key(), n, hello_plain()))
            }
        },
        SenderPhase::AwaitHelloHeader => {
            let v = header_verdict(data, Message { ty: MessageTy::Hello, len: HELLO_LEN as u64 });
            &&& v is Ok <==> r is Ok
            &&& v matches Err(e) ==> r == Err::<Step, ProtoError>(e)
            &&& r is Err ==> t == s
            &&& r matches Ok(st) ==> st.send@.len() == 0 && t.moved_on_from(
                s,
                SenderPhase::AwaitHello,
            )
        },
        SenderPhase::AwaitHello => {
            &&& r is Ok <==> exists|p: Seq<u8>| seal_of(s.key(), nonce_bytes(s.iv(), 2), p) == data
            &&& r matches Err(e) ==> e == ProtoError::CryptoErr
            &&& r matches Ok(st) ==> {
                &&& t.phase() == SenderPhase::Transmit
                &&& st.send@.len() == 0
                &&& t.iv() == s.iv()
                &&& t.counter() == 2
                &&& t.sealed().len() == 0
                &&& t.plains().len() == 0
                &&& t.input().len() == 0
                &&& t.pending().len() == 0
                &&& t.sent().len() == 0
            }
        },
        SenderPhase::Transmit => {
            &&& s.counter() < u64::MAX ==> r is Ok
            &&& r matches Err(e) ==> e == ProtoError::CryptoErr
            &&& r matches Ok(st) ==> {
                &&& t.iv() == s.iv()
                &&& t.input() == s.input() + data
                &&& t.sent() == s.sent() + st.send@
                &&& t.phase() == (if data.len() == 0 {
                    SenderPhase::AwaitGoodbye
                } else {
                    SenderPhase::Transmit
                })
            }
        },
        _ => {
            let v = header_verdict(data, Message { ty: MessageTy::Goodbye, len: 0 });
            &&& v is Ok <==> r is Ok
            &&& v matches Err(e) ==> r == Err::<Step, ProtoError>(e)
            &&& r is Err ==> t == s
            &&& r matches Ok(st) ==> st.send@.len() == 0 && t.moved_on_from(
                s,
                SenderPhase::Finished,
            )
        },
    }
}

} // verus!
