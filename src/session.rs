//! Laws of a whole session, relating the two machines.
use crate::aead::{opened_as, seal_of, sealed_as};
use crate::bytes::{be_bytes, be_value, lemma_be_value_of_bytes, lemma_pow256_values};
use crate::machine::{
    chunks_of, frames_of, goodbye_header, lemma_chunks_of_shape, lemma_frames_injective,
};
use crate::receiver::{Receiver, ReceiverPhase};
use crate::sender::{Sender, SenderPhase};
use crate::BLOCK_SIZE;
use vstd::prelude::*;

verus! {

/// Sealing then opening under the same key and nonce gives the plaintext
/// back.
pub proof fn lemma_seal_open_identity(
    key: Seq<u8>,
    nonce: Seq<u8>,
    plain: Seq<u8>,
    sealed: Seq<u8>,
    opened: Seq<u8>,
)
    requires
        sealed_as(key, nonce, plain, sealed),
        opened_as(key, nonce, sealed, opened),
    ensures
        opened == plain,
{
    assert(seal_of(key, nonce, plain) == sealed);
}

/// The IV that the sender reads from the `RepIV` payload is the one the
/// receiver wrote there.
pub proof fn lemma_iv_agreement(iv: u32)
    ensures
        be_value(be_bytes(iv as nat, 4)) == iv as nat,
{
    lemma_pow256_values();
    lemma_be_value_of_bytes(iv as nat, 4);
}

/// A finished transfer delivers the input: when the receiver has taken from
/// the transport exactly what the sender sent after the handshake, under the
/// same key and IV, it has written the sender's whole input to its output,
/// byte for byte, one block per `BLOCK_SIZE` piece of the input.
pub proof fn lemma_transfer_delivers_input(s: Sender, r: Receiver)
    requires
        s.wf(),
        r.wf(),
        s.phase() == SenderPhase::AwaitGoodbye || s.phase() == SenderPhase::Finished,
        r.phase() == ReceiverPhase::Finished,
        r.key() == s.key(),
        r.iv() == s.iv(),
        r.received() == s.sent(),
    ensures
        r.output() == s.input(),
        r.plains() == chunks_of(s.input()),
{
    let g = goodbye_header();
    let fa = frames_of(r.opened());
    let fb = frames_of(s.sealed());
    assert(fa =~= (fa + g).subrange(0, fa.len() as int));
    assert(fb =~= (fb + g).subrange(0, fb.len() as int));
    assert(fa.len() == fb.len());
    assert forall|i: int| 0 <= i < s.sealed().len() implies (#[trigger] s.sealed()[i]).len()
        <= u64::MAX by {
        assert(sealed_as(
            s.key(),
            crate::nonce::nonce_bytes(s.iv(), (i + 3) as nat),
            s.plains()[i],
            s.sealed()[i],
        ));
        lemma_chunks_of_shape(s.input());
        assert(s.plains()[i].len() <= BLOCK_SIZE);
    }
    lemma_frames_injective(r.opened(), s.sealed());
    assert forall|i: int| 0 <= i < r.plains().len() implies #[trigger] r.plains()[i]
        == s.plains()[i] by {
        let n = crate::nonce::nonce_bytes(s.iv(), (i + 3) as nat);
        assert(opened_as(r.key(), n, r.opened()[i], r.plains()[i]));
        assert(sealed_as(s.key(), n, s.plains()[i], s.sealed()[i]));
        lemma_seal_open_identity(s.key(), n, s.plains()[i], s.sealed()[i], r.plains()[i]);
    }
    assert(r.plains() =~= s.plains());
    lemma_chunks_of_shape(s.input());
}

/// Empty input gives no `Block` frame: after the handshake the sender sends
/// only its `Goodbye`.
pub proof fn lemma_empty_input_sends_only_goodbye(s: Sender)
    requires
        s.wf(),
        s.phase() == SenderPhase::AwaitGoodbye || s.phase() == SenderPhase::Finished,
        s.input().len() == 0,
    ensures
        s.sealed().len() == 0,
        s.sent() == goodbye_header(),
{
    assert(frames_of(s.sealed()) =~= Seq::<u8>::empty());
    assert(s.sent() =~= goodbye_header());
}

} // verus!
