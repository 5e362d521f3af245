//! What the two session machines share: their coarse state, the step they
//! hand to the caller, and the sequences they build.
use crate::aead::frame_spec;
use crate::bytes::be_bytes;
use crate::codec::{
    decode_header, decode_spec, encode_spec, lemma_encode_len, lemma_header_bijection, Message,
    MessageTy,
};
use crate::error::ProtoError;
use crate::{BLOCK_SIZE, MAGIC_BYTES, MESSAGE_SIZE};
use vstd::prelude::*;

verus! {

/// The coarse state of a peer.
#[derive(Debug, Clone, Copy, PartialEq, Eq, Structural)]
pub enum State {
    /// The peers are done and hang up.
    WaitHangup,
    /// The handshake is under way.
    WaitHello,
    /// Blocks flow from the sender to the receiver.
    Transmit,
}

/// What a machine needs next from its caller.
#[derive(Debug, Clone, Copy, PartialEq, Eq, Structural)]
pub enum Need {
    /// Read exactly this many bytes from the transport and hand them back.
    Transport(usize),
    /// Read at most this many bytes of input and hand them back; hand back
    /// none only at the end of the input.
    Input(usize),
    /// Close the transport; the session is over.
    Close,
    /// The session is over.
    Done,
}

/// One step of a machine: bytes to write to the transport, then bytes to
/// write (and flush) to the output, then what the machine needs next.
#[derive(Debug)]
pub struct Step {
    pub send: Vec<u8>,
    pub output: Vec<u8>,
    pub need: Need,
}

/// Whether a machine that needs `need` accepts `n` bytes in return.
pub open spec fn accepts(need: Need, n: nat) -> bool {
    match need {
        Need::Transport(k) => n == k,
        Need::Input(k) => n <= k,
        Need::Close => false,
        Need::Done => false,
    }
}

/// The plaintext of each peer's `Hello`: the magic bytes, big-endian.
pub open spec fn hello_plain() -> Seq<u8> {
    be_bytes(MAGIC_BYTES as nat, 4)
}

/// The wire bytes of a `Goodbye` header.
pub open spec fn goodbye_header() -> Seq<u8> {
    encode_spec(Message { ty: MessageTy::Goodbye, len: 0 })
}

/// What becomes of received header bytes `b` where the header `want` is the
/// only legal one: bytes that do not decode are a codec error, and a header
/// of another type or length is unexpected.
pub open spec fn header_verdict(b: Seq<u8>, want: Message) -> Result<(), ProtoError> {
    match decode_spec(b) {
        None => Err(ProtoError::SerializeErr),
        Some(m) => if m == want {
            Ok(())
        } else {
            Err(ProtoError::UnexpectedMessage)
        },
    }
}

/// Checks received header bytes against the one header that is legal.
pub fn expect_header(b: &[u8], want: Message) -> (r: Result<(), ProtoError>)
    ensures
        r == header_verdict(b@, want),
{
    let m = decode_header(b)?;
    if m == want {
        Ok(())
    } else {
        Err(ProtoError::UnexpectedMessage)
    }
}

/// Appends the bytes of `src` to `dst`.
pub fn append_bytes(dst: &mut Vec<u8>, src: &[u8])
    ensures
        final(dst)@ == old(dst)@ + src@,
{
    let mut i: usize = 0;
    while i < src.len()
        invariant
            i <= src@.len(),
            dst@ == old(dst)@ + src@.subrange(0, i as int),
        decreases src@.len() - i,
    {
        dst.push(src[i]);
        i = i + 1;
        assert(src@.subrange(0, i as int) =~= src@.subrange(0, i - 1 as int).push(src@[i - 1]));
    }
    assert(src@.subrange(0, src@.len() as int) =~= src@);
}

/// The pieces of `parts` one after another.
pub open spec fn joined(parts: Seq<Seq<u8>>) -> Seq<u8>
    decreases parts.len(),
{
    if parts.len() == 0 {
        Seq::empty()
    } else {
        parts[0] + joined(parts.skip(1))
    }
}

/// `s` cut into blocks of `BLOCK_SIZE` bytes; only the last may be shorter,
/// and none is empty.
pub open spec fn chunks_of(s: Seq<u8>) -> Seq<Seq<u8>>
    decreases s.len(),
{
    if s.len() == 0 {
        Seq::empty()
    } else if s.len() <= BLOCK_SIZE {
        seq![s]
    } else {
        seq![s.take(BLOCK_SIZE as int)] + chunks_of(s.skip(BLOCK_SIZE as int))
    }
}

/// The `Block` frames that carry the sealed payloads `sealed`, in order.
pub open spec fn frames_of(sealed: Seq<Seq<u8>>) -> Seq<u8>
    decreases sealed.len(),
{
    if sealed.len() == 0 {
        Seq::empty()
    } else {
        frame_spec(MessageTy::Block, sealed[0]) + frames_of(sealed.skip(1))
    }
}

pub proof fn lemma_joined_push(parts: Seq<Seq<u8>>, p: Seq<u8>)
    ensures
        joined(parts.push(p)) == joined(parts) + p,
    decreases parts.len(),
{
    if parts.len() == 0 {
        assert(parts.push(p).skip(1) =~= Seq::<Seq<u8>>::empty());
        assert(joined(parts.push(p).skip(1)) == Seq::<u8>::empty());
        assert(joined(parts.push(p)) =~= p);
    } else {
        assert(parts.push(p).skip(1) =~= parts.skip(1).push(p));
        lemma_joined_push(parts.skip(1), p);
        assert(joined(parts.push(p)) =~= joined(parts) + p);
    }
}

pub proof fn lemma_frames_push(sealed: Seq<Seq<u8>>, c: Seq<u8>)
    ensures
        frames_of(sealed.push(c)) == frames_of(sealed) + frame_spec(MessageTy::Block, c),
    decreases sealed.len(),
{
    if sealed.len() == 0 {
        assert(sealed.push(c).skip(1) =~= Seq::<Seq<u8>>::empty());
        assert(frames_of(sealed.push(c).skip(1)) == Seq::<u8>::empty());
        assert(frames_of(sealed.push(c)) =~= frame_spec(MessageTy::Block, c));
    } else {
        assert(sealed.push(c).skip(1) =~= sealed.skip(1).push(c));
        lemma_frames_push(sealed.skip(1), c);
        assert(frames_of(sealed.push(c)) =~= frames_of(sealed) + frame_spec(MessageTy::Block, c));
    }
}

/// Full blocks followed by a tail of at most one block are cut back into
/// those blocks and the tail.
pub proof fn lemma_chunks_of_full_blocks(parts: Seq<Seq<u8>>, tail: Seq<u8>)
    requires
        forall|i: int| 0 <= i < parts.len() ==> (#[trigger] parts[i]).len() == BLOCK_SIZE,
        tail.len() <= BLOCK_SIZE,
    ensures
        chunks_of(joined(parts) + tail) == (if tail.len() == 0 {
            parts
        } else {
            parts.push(tail)
        }),
    decreases parts.len(),
{
    if parts.len() == 0 {
        assert(joined(parts) + tail =~= tail);
        if tail.len() == 0 {
            assert(parts =~= Seq::<Seq<u8>>::empty());
        } else {
            assert(parts.push(tail) =~= seq![tail]);
        }
    } else {
        let rest = parts.skip(1);
        assert forall|i: int| 0 <= i < rest.len() implies (#[trigger] rest[i]).len()
            == BLOCK_SIZE by {
            assert(rest[i] == parts[i + 1]);
        }
        lemma_chunks_of_full_blocks(rest, tail);
        let s = joined(parts) + tail;
        assert(s =~= parts[0] + (joined(rest) + tail));
        assert(s.take(BLOCK_SIZE as int) =~= parts[0]);
        assert(s.skip(BLOCK_SIZE as int) =~= joined(rest) + tail);
        if s.len() <= BLOCK_SIZE {
            assert(joined(rest) + tail =~= Seq::<u8>::empty());
            assert(chunks_of(joined(rest) + tail) =~= Seq::<Seq<u8>>::empty());
        }
        if tail.len() == 0 {
            assert(parts =~= seq![parts[0]] + rest);
        } else {
            assert(parts.push(tail) =~= seq![parts[0]] + rest.push(tail));
        }
    }
}

/// How input is cut into blocks: `ceil(n / BLOCK_SIZE)` of them, each but the
/// last full, and joined back they give the input. So no input gives no
/// block, exactly `BLOCK_SIZE` bytes give one, and one byte more gives two,
/// the second of one byte.
pub proof fn lemma_chunks_of_shape(s: Seq<u8>)
    ensures
        chunks_of(s).len() == (s.len() + BLOCK_SIZE - 1) / (BLOCK_SIZE as int),
        joined(chunks_of(s)) == s,
        forall|i: int|
            0 <= i < chunks_of(s).len() ==> (#[trigger] chunks_of(s)[i]) == s.subrange(
                i * BLOCK_SIZE,
                if (i + 1) * BLOCK_SIZE <= s.len() {
                    (i + 1) * BLOCK_SIZE
                } else {
                    s.len() as int
                },
            ),
    decreases s.len(),
{
    if s.len() == 0 {
    } else if s.len() <= BLOCK_SIZE {
        assert(joined(seq![s]) =~= s) by {
            assert(seq![s].skip(1) =~= Seq::<Seq<u8>>::empty());
            assert(joined(seq![s].skip(1)) == Seq::<u8>::empty());
        }
        assert(s.subrange(0, s.len() as int) =~= s);
    } else {
        let rest = s.skip(BLOCK_SIZE as int);
        lemma_chunks_of_shape(rest);
        let c = chunks_of(s);
        assert(c.skip(1) =~= chunks_of(rest));
        assert(s =~= s.take(BLOCK_SIZE as int) + rest);
        assert forall|i: int| 0 <= i < c.len() implies (#[trigger] c[i]) == s.subrange(
            i * BLOCK_SIZE,
            if (i + 1) * BLOCK_SIZE <= s.len() {
                (i + 1) * BLOCK_SIZE
            } else {
                s.len() as int
            },
        ) by {
            if i == 0 {
                assert(c[0] =~= s.subrange(0, BLOCK_SIZE as int));
            } else {
                let j = i - 1;
                assert(c[i] == chunks_of(rest)[j]);
                assert(i * BLOCK_SIZE == j * BLOCK_SIZE + BLOCK_SIZE) by (nonlinear_arith)
                    requires
                        j == i - 1,
                ;
                assert((i + 1) * BLOCK_SIZE == (j + 1) * BLOCK_SIZE + BLOCK_SIZE) by (
                nonlinear_arith)
                    requires
                        j == i - 1,
                ;
                assert(c[i] =~= s.subrange(
                    i * BLOCK_SIZE,
                    if (i + 1) * BLOCK_SIZE <= s.len() {
                        (i + 1) * BLOCK_SIZE
                    } else {
                        s.len() as int
                    },
                ));
            }
        }
    }
}

/// The stream of `Block` frames determines the payloads it carries: two
/// sequences of payloads that fit a header's length field and give the same
/// frames are the same.
pub proof fn lemma_frames_injective(a: Seq<Seq<u8>>, b: Seq<Seq<u8>>)
    requires
        forall|i: int| 0 <= i < a.len() ==> (#[trigger] a[i]).len() <= u64::MAX,
        forall|i: int| 0 <= i < b.len() ==> (#[trigger] b[i]).len() <= u64::MAX,
        frames_of(a) == frames_of(b),
    ensures
        a == b,
    decreases a.len(),
{
    if a.len() == 0 {
        if b.len() > 0 {
            lemma_encode_len(crate::codec::Message { ty: MessageTy::Block, len: b[0].len() as u64 });
            assert(frames_of(b).len() >= MESSAGE_SIZE);
        }
        assert(a =~= b);
    } else {
        if b.len() == 0 {
            lemma_encode_len(crate::codec::Message { ty: MessageTy::Block, len: a[0].len() as u64 });
            assert(frames_of(a).len() >= MESSAGE_SIZE);
        } else {
            let ma = crate::codec::Message { ty: MessageTy::Block, len: a[0].len() as u64 };
            let mb = crate::codec::Message { ty: MessageTy::Block, len: b[0].len() as u64 };
            lemma_header_bijection(ma, Seq::empty());
            lemma_header_bijection(mb, Seq::empty());
            let f = frames_of(a);
            assert(f.subrange(0, MESSAGE_SIZE as int) =~= encode_spec(ma));
            assert(frames_of(b).subrange(0, MESSAGE_SIZE as int) =~= encode_spec(mb));
            assert(ma == mb);
            assert(a[0].len() == b[0].len());
            let n = MESSAGE_SIZE + a[0].len();
            assert(f.subrange(MESSAGE_SIZE as int, n as int) =~= a[0]);
            assert(frames_of(b).subrange(MESSAGE_SIZE as int, n as int) =~= b[0]);
            assert(f.skip(n as int) =~= frames_of(a.skip(1)));
            assert(frames_of(b).skip(n as int) =~= frames_of(b.skip(1)));
            let ra = a.skip(1);
            let rb = b.skip(1);
            assert forall|i: int| 0 <= i < ra.len() implies (#[trigger] ra[i]).len()
                <= u64::MAX by {
                assert(ra[i] == a[i + 1]);
            }
            assert forall|i: int| 0 <= i < rb.len() implies (#[trigger] rb[i]).len()
                <= u64::MAX by {
                assert(rb[i] == b[i + 1]);
            }
            lemma_frames_injective(ra, rb);
            assert(a =~= seq![a[0]] + ra);
            assert(b =~= seq![b[0]] + rb);
        }
    }
}

} // verus!
