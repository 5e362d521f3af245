use ubuffer::aead::{open, seal, seal_frame};
use ubuffer::codec::{check_header_size, decode_header, encode_header, ty_from_index, ty_to_index, Message, MessageTy};
use ubuffer::error::ProtoError;
use ubuffer::nonce::get_next_nonce;
use ubuffer::{BLOCK_SIZE, MESSAGE_SIZE, TAG_LEN};

const ALL: [MessageTy; 5] =
    [MessageTy::Block, MessageTy::ReqIV, MessageTy::RepIV, MessageTy::Hello, MessageTy::Goodbye];

#[test]
fn header_round_trip() {
    for ty in ALL {
        for len in [0u64, 4, 20, 27, (BLOCK_SIZE + TAG_LEN) as u64, u64::MAX] {
            let m = Message { ty, len };
            let b = encode_header(&m).unwrap();
            assert_eq!(b.len(), MESSAGE_SIZE);
            assert_eq!(decode_header(&b).unwrap(), m);
        }
    }
}

#[test]
fn header_bytes_are_big_endian() {
    let b = encode_header(&Message { ty: MessageTy::Block, len: 27 }).unwrap();
    assert_eq!(b, vec![0, 0, 0, 0, 0, 0, 0, 0, 0, 0, 0, 27]);
    let b = encode_header(&Message { ty: MessageTy::Goodbye, len: 0x0102 }).unwrap();
    assert_eq!(b, vec![0, 0, 0, 4, 0, 0, 0, 0, 0, 0, 1, 2]);
}

#[test]
fn header_decode_refuses_bad_input() {
    assert_eq!(decode_header(&[0u8; 11]), Err(ProtoError::SerializeErr));
    assert_eq!(decode_header(&[0u8; 13]), Err(ProtoError::SerializeErr));
    assert_eq!(decode_header(&[0, 0, 0, 5, 0, 0, 0, 0, 0, 0, 0, 0]), Err(ProtoError::SerializeErr));
    assert_eq!(
        decode_header(&[0, 0, 0, 3, 0, 0, 0, 0, 0, 0, 0, 20]),
        Ok(Message { ty: MessageTy::Hello, len: 20 })
    );
}

#[test]
fn type_discriminants() {
    for (i, ty) in ALL.iter().enumerate() {
        assert_eq!(ty_to_index(*ty), i as u32);
        assert_eq!(ty_from_index(i as u32), Some(*ty));
    }
    assert_eq!(ty_from_index(5), None);
}

#[test]
fn header_size_check_passes() {
    assert_eq!(check_header_size(), Ok(()));
}

#[test]
fn nonce_is_iv_then_counter() {
    let mut iv = 0x0102_0304u32;
    let mut counter = 0u64;
    let n = get_next_nonce(&mut iv, &mut counter).unwrap();
    assert_eq!(counter, 1);
    assert_eq!(iv, 0x0102_0304);
    assert_eq!(n, vec![1, 2, 3, 4, 0, 0, 0, 0, 0, 0, 0, 1]);
    let n = get_next_nonce(&mut iv, &mut counter).unwrap();
    assert_eq!(n, vec![1, 2, 3, 4, 0, 0, 0, 0, 0, 0, 0, 2]);
    let mut counter = 0x1122_3344_5566_7787u64;
    let n = get_next_nonce(&mut iv, &mut counter).unwrap();
    assert_eq!(n, vec![1, 2, 3, 4, 0x11, 0x22, 0x33, 0x44, 0x55, 0x66, 0x77, 0x88]);
}

#[test]
fn exhausted_counter_is_refused() {
    let mut iv = 9u32;
    let mut counter = u64::MAX;
    assert_eq!(get_next_nonce(&mut iv, &mut counter), Err(ProtoError::CryptoErr));
    assert_eq!(counter, u64::MAX);
}

#[test]
fn seal_open_round_trip() {
    let key = [3u8; 32];
    let nonce = [0u8, 0, 0, 1, 0, 0, 0, 0, 0, 0, 0, 1];
    let plain = b"hello world".to_vec();
    let sealed = seal(&key, &nonce, &plain).unwrap();
    assert_eq!(sealed.len(), plain.len() + TAG_LEN);
    assert_ne!(&sealed[..plain.len()], &plain[..]);
    assert_eq!(open(&key, &nonce, &sealed), Ok(plain));
}

#[test]
fn open_fails_with_other_nonce_or_key() {
    let key = [3u8; 32];
    let nonce = [0u8, 0, 0, 1, 0, 0, 0, 0, 0, 0, 0, 1];
    let other = [0u8, 0, 0, 1, 0, 0, 0, 0, 0, 0, 0, 2];
    let sealed = seal(&key, &nonce, b"abc").unwrap();
    assert_eq!(open(&key, &other, &sealed), Err(ProtoError::CryptoErr));
    assert_eq!(open(&[4u8; 32], &nonce, &sealed), Err(ProtoError::CryptoErr));
    assert_eq!(open(&key, &nonce, &sealed[..10]), Err(ProtoError::CryptoErr));
}

#[test]
fn aes_256_gcm_known_answer() {
    // AES-256-GCM with an all-zero key and nonce over an empty plaintext.
    let sealed = seal(&[0u8; 32], &[0u8; 12], &[]).unwrap();
    assert_eq!(
        sealed,
        vec![
            0x53, 0x0f, 0x8a, 0xfb, 0xc7, 0x45, 0x36, 0xb9, 0xa9, 0x63, 0xb4, 0xf1, 0xc4, 0xcb,
            0x73, 0x8b
        ]
    );
}

#[test]
fn frame_length_is_header_plus_payload_plus_tag() {
    let key = [5u8; 32];
    let nonce = [1u8; 12];
    for len in [0usize, 1, 11, 4096, BLOCK_SIZE] {
        let plain = vec![0x5Au8; len];
        let f = seal_frame(MessageTy::Block, &key, &nonce, &plain).unwrap();
        assert_eq!(f.len(), MESSAGE_SIZE + len + TAG_LEN);
        let m = decode_header(&f[..MESSAGE_SIZE]).unwrap();
        assert_eq!(m, Message { ty: MessageTy::Block, len: (len + TAG_LEN) as u64 });
        assert_eq!(open(&key, &nonce, &f[MESSAGE_SIZE..]), Ok(plain));
    }
}
