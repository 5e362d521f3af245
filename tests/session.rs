use ubuffer::codec::{decode_header, encode_header, Message, MessageTy};
use ubuffer::error::ProtoError;
use ubuffer::machine::{Need, State};
use ubuffer::receiver::Receiver;
use ubuffer::sender::Sender;
use ubuffer::{BLOCK_SIZE, MESSAGE_SIZE, TAG_LEN};

const KEY1: [u8; 32] = [7u8; 32];

fn key2() -> [u8; 32] {
    let mut k = [7u8; 32];
    k[31] = 8;
    k
}

struct Outcome {
    sender: Option<Result<(), ProtoError>>,
    receiver: Option<Result<(), ProtoError>>,
    output: Vec<u8>,
    to_receiver: Vec<u8>,
    to_sender: Vec<u8>,
}

/// Runs both machines against each other over in-memory byte queues. The bit
/// `flip` (byte offset, bit) of the sender's outgoing stream is inverted.
fn run_session(input: &[u8], skey: &[u8], rkey: &[u8], flip: Option<(usize, u8)>) -> Outcome {
    let mut s = Sender::new(skey).unwrap();
    let mut r = Receiver::new(rkey).unwrap();
    let mut to_receiver: Vec<u8> = Vec::new();
    let mut to_sender: Vec<u8> = Vec::new();
    let (mut rpos, mut spos, mut ipos) = (0usize, 0usize, 0usize);
    let mut output = Vec::new();
    let mut sender = None;
    let mut receiver = None;
    let mut flipped = false;

    let first = s.start().unwrap();
    to_receiver.extend_from_slice(&first.send);
    let mut s_need = first.need;
    let mut r_need = r.start().need;

    loop {
        if let Some((at, bit)) = flip {
            if !flipped && at < to_receiver.len() {
                to_receiver[at] ^= 1 << bit;
                flipped = true;
            }
        }
        let mut progress = false;
        if sender.is_none() {
            let data: Option<Vec<u8>> = match s_need {
                Need::Transport(n) if to_sender.len() - spos >= n => {
                    spos += n;
                    Some(to_sender[spos - n..spos].to_vec())
                }
                Need::Input(n) => {
                    let take = n.min(input.len() - ipos);
                    ipos += take;
                    Some(input[ipos - take..ipos].to_vec())
                }
                Need::Done => {
                    sender = Some(Ok(()));
                    None
                }
                _ => None,
            };
            if let Some(d) = data {
                progress = true;
                match s.advance(&d) {
                    Ok(step) => {
                        to_receiver.extend_from_slice(&step.send);
                        s_need = step.need;
                    }
                    Err(e) => sender = Some(Err(e)),
                }
            }
        }
        if receiver.is_none() {
            let data: Option<Vec<u8>> = match r_need {
                Need::Transport(n) if to_receiver.len() - rpos >= n => {
                    rpos += n;
                    Some(to_receiver[rpos - n..rpos].to_vec())
                }
                Need::Close => {
                    receiver = Some(Ok(()));
                    None
                }
                _ => None,
            };
            if let Some(d) = data {
                progress = true;
                match r.advance(&d) {
                    Ok(step) => {
                        to_sender.extend_from_slice(&step.send);
                        output.extend_from_slice(&step.output);
                        r_need = step.need;
                    }
                    Err(e) => receiver = Some(Err(e)),
                }
            }
        }
        if !progress {
            break;
        }
    }
    Outcome { sender, receiver, output, to_receiver, to_sender }
}

/// The headers of a wire stream, each with its payload skipped.
fn headers(wire: &[u8]) -> Vec<Message> {
    let mut out = Vec::new();
    let mut pos = 0;
    while pos + MESSAGE_SIZE <= wire.len() {
        let m = decode_header(&wire[pos..pos + MESSAGE_SIZE]).unwrap();
        pos += MESSAGE_SIZE + m.len as usize;
        out.push(m);
    }
    assert_eq!(pos, wire.len());
    out
}

fn block_lens(wire: &[u8]) -> Vec<u64> {
    headers(wire).iter().filter(|m| m.ty == MessageTy::Block).map(|m| m.len).collect()
}

fn pseudo_random(n: usize) -> Vec<u8> {
    let mut x: u32 = 0x1234_5678;
    (0..n)
        .map(|_| {
            x = x.wrapping_mul(1_664_525).wrapping_add(1_013_904_223);
            (x >> 24) as u8
        })
        .collect()
}

#[test]
fn empty_stream() {
    let o = run_session(&[], &KEY1, &KEY1, None);
    assert_eq!(o.sender, Some(Ok(())));
    assert_eq!(o.receiver, Some(Ok(())));
    assert!(o.output.is_empty());
    let up: Vec<MessageTy> = headers(&o.to_receiver).iter().map(|m| m.ty).collect();
    let down: Vec<MessageTy> = headers(&o.to_sender).iter().map(|m| m.ty).collect();
    assert_eq!(up, vec![MessageTy::ReqIV, MessageTy::Hello, MessageTy::Goodbye]);
    assert_eq!(down, vec![MessageTy::RepIV, MessageTy::Hello, MessageTy::Goodbye]);
}

#[test]
fn single_small_block() {
    let input = [0x68, 0x65, 0x6C, 0x6C, 0x6F, 0x20, 0x77, 0x6F, 0x72, 0x6C, 0x64];
    let o = run_session(&input, &KEY1, &KEY1, None);
    assert_eq!(o.sender, Some(Ok(())));
    assert_eq!(o.receiver, Some(Ok(())));
    assert_eq!(o.output, input.to_vec());
    assert_eq!(block_lens(&o.to_receiver), vec![27]);
}

#[test]
fn exact_block_boundary() {
    let input = vec![0xAAu8; 131072];
    let o = run_session(&input, &KEY1, &KEY1, None);
    assert_eq!(o.receiver, Some(Ok(())));
    assert_eq!(o.sender, Some(Ok(())));
    assert_eq!(o.output, input);
    assert_eq!(block_lens(&o.to_receiver), vec![131088]);
}

#[test]
fn cross_block_boundary() {
    let input = pseudo_random(200000);
    let o = run_session(&input, &KEY1, &KEY1, None);
    assert_eq!(o.receiver, Some(Ok(())));
    assert_eq!(o.sender, Some(Ok(())));
    assert_eq!(o.output, input);
    assert_eq!(block_lens(&o.to_receiver), vec![131088, 68944]);
}

#[test]
fn one_byte_over_a_block_gives_two_frames() {
    let input = pseudo_random(BLOCK_SIZE + 1);
    let o = run_session(&input, &KEY1, &KEY1, None);
    assert_eq!(o.output, input);
    assert_eq!(block_lens(&o.to_receiver), vec![(BLOCK_SIZE + TAG_LEN) as u64, (1 + TAG_LEN) as u64]);
}

#[test]
fn tamper_detection() {
    let input = b"hello world";
    // ReqIV (12) + Hello frame (12 + 20) + Block header (12), then 27 sealed bytes.
    let last = 12 + 32 + 12 + 27 - 1;
    let o = run_session(input, &KEY1, &KEY1, Some((last, 0)));
    assert_eq!(o.receiver, Some(Err(ProtoError::CryptoErr)));
    assert!(o.output.is_empty());
    assert_ne!(o.sender, Some(Ok(())));
}

#[test]
fn every_single_bit_flip_is_detected() {
    let input = b"hello world";
    let start = 12 + 32 + 12;
    for byte in start..start + 27 {
        for bit in 0..8 {
            let o = run_session(input, &KEY1, &KEY1, Some((byte, bit)));
            assert_eq!(o.receiver, Some(Err(ProtoError::CryptoErr)));
            assert!(o.output.is_empty());
        }
    }
}

#[test]
fn key_mismatch() {
    let o = run_session(b"secret", &KEY1, &key2(), None);
    assert_eq!(o.receiver, Some(Err(ProtoError::CryptoErr)));
    assert_ne!(o.sender, Some(Ok(())));
    assert!(o.output.is_empty());
}

#[test]
fn bad_key_length_is_refused() {
    assert!(matches!(Sender::new(&[0u8; 16]), Err(ProtoError::CryptoErr)));
    assert!(matches!(Receiver::new(&[0u8; 33]), Err(ProtoError::CryptoErr)));
}

#[test]
fn receiver_sends_iv_big_endian() {
    let mut r = Receiver::new(&KEY1).unwrap();
    let req = encode_header(&Message { ty: MessageTy::ReqIV, len: 0 }).unwrap();
    let step = r.recv_req_iv(&req, 0x0102_0304).unwrap();
    assert_eq!(step.send.len(), 16);
    assert_eq!(&step.send[..12], &[0, 0, 0, 2, 0, 0, 0, 0, 0, 0, 0, 4]);
    assert_eq!(&step.send[12..], &[1, 2, 3, 4]);
    assert_eq!(step.need, Need::Transport(12));
    assert_eq!(r.state(), State::WaitHello);
}

#[test]
fn receiver_rejects_wrong_first_header() {
    let mut r = Receiver::new(&KEY1).unwrap();
    let hello = encode_header(&Message { ty: MessageTy::Hello, len: 20 }).unwrap();
    assert!(matches!(r.recv_req_iv(&hello, 1), Err(ProtoError::UnexpectedMessage)));
    let mut r = Receiver::new(&KEY1).unwrap();
    let req = encode_header(&Message { ty: MessageTy::ReqIV, len: 3 }).unwrap();
    assert!(matches!(r.recv_req_iv(&req, 1), Err(ProtoError::UnexpectedMessage)));
}

#[test]
fn sender_rejects_wrong_reply() {
    let mut s = Sender::new(&KEY1).unwrap();
    s.start().unwrap();
    let wrong = encode_header(&Message { ty: MessageTy::Goodbye, len: 0 }).unwrap();
    assert!(matches!(s.advance(&wrong), Err(ProtoError::UnexpectedMessage)));
    let mut s = Sender::new(&KEY1).unwrap();
    s.start().unwrap();
    let garbage = [0u8, 0, 0, 9, 0, 0, 0, 0, 0, 0, 0, 4];
    assert!(matches!(s.advance(&garbage), Err(ProtoError::SerializeErr)));
}

/// Drives a receiver through the handshake with a real sender.
fn handshaken() -> (Sender, Receiver) {
    let mut s = Sender::new(&KEY1).unwrap();
    let mut r = Receiver::new(&KEY1).unwrap();
    let req = s.start().unwrap().send;
    let rep = r.advance(&req).unwrap().send;
    s.advance(&rep[..12]).unwrap();
    let hello = s.advance(&rep[12..]).unwrap().send;
    r.advance(&hello[..12]).unwrap();
    let back = r.advance(&hello[12..]).unwrap().send;
    s.advance(&back[..12]).unwrap();
    let step = s.advance(&back[12..]).unwrap();
    assert_eq!(step.need, Need::Input(BLOCK_SIZE));
    assert_eq!(s.state(), State::Transmit);
    assert_eq!(r.state(), State::Transmit);
    (s, r)
}

#[test]
fn goodbye_in_transmit_ends_the_receiver() {
    let (_s, mut r) = handshaken();
    let bye = encode_header(&Message { ty: MessageTy::Goodbye, len: 0 }).unwrap();
    let step = r.advance(&bye).unwrap();
    assert_eq!(step.send, bye);
    assert!(step.output.is_empty());
    assert_eq!(step.need, Need::Close);
    assert_eq!(r.state(), State::WaitHangup);
}

#[test]
fn oversized_block_header_is_unexpected() {
    let (_s, mut r) = handshaken();
    let big = encode_header(&Message { ty: MessageTy::Block, len: (BLOCK_SIZE + TAG_LEN + 1) as u64 }).unwrap();
    assert!(matches!(r.advance(&big), Err(ProtoError::UnexpectedMessage)));
}

#[test]
fn sender_gathers_short_reads_into_one_block() {
    let (mut s, _r) = handshaken();
    let step = s.advance(&[1, 2, 3]).unwrap();
    assert!(step.send.is_empty());
    assert_eq!(step.need, Need::Input(BLOCK_SIZE - 3));
    let step = s.advance(&[]).unwrap();
    // one Block frame of 3 + 16 bytes, then Goodbye
    assert_eq!(step.send.len(), 12 + 3 + 16 + 12);
    assert_eq!(step.need, Need::Transport(12));
    assert_eq!(s.state(), State::WaitHangup);
}
