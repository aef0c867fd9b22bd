use sha1sum::{Sha1Error, SHA1};

fn hash_of(message: &[u8]) -> String {
    let mut sha1 = SHA1::new();
    let mut input = message.to_vec();
    let len = input.len();
    sha1.pad_message(&mut input, len).expect("padding refused");
    sha1.ingest(input).expect("ingest refused");
    sha1.digest()
}

fn is_lower_hex_40(s: &str) -> bool {
    s.len() == 40 && s.chars().all(|c| c.is_ascii_digit() || ('a'..='f').contains(&c))
}

#[test]
fn digest_is_forty_lowercase_hex_digits() {
    let states = [
        SHA1::new(),
        SHA1::from_words(0, 0, 0, 0, 0),
        SHA1::from_words(u32::MAX, u32::MAX, u32::MAX, u32::MAX, u32::MAX),
        SHA1::from_words(0x0000000f, 0xf0000000, 0x12345678, 0x9abcdef0, 0x00ff00ff),
    ];
    for s in states.iter() {
        assert!(is_lower_hex_40(&s.digest()), "{}", s.digest());
    }
    assert_eq!(
        "0000000ff0000000123456789abcdef000ff00ff",
        SHA1::from_words(0x0000000f, 0xf0000000, 0x12345678, 0x9abcdef0, 0x00ff00ff).digest()
    );
    assert!(is_lower_hex_40(&hash_of(b"abc")));
}

#[test]
fn known_vector_empty() {
    assert_eq!("da39a3ee5e6b4b0d3255bfef95601890afd80709", hash_of(b""));
}

#[test]
fn known_vector_test() {
    assert_eq!("a94a8fe5ccb19ba61c4c0873d391e987982fbbd3", hash_of(b"test"));
}

#[test]
fn known_vector_abc() {
    assert_eq!("a9993e364706816aba3e25717850c26c9cd0d89d", hash_of(b"abc"));
}

#[test]
fn known_vector_test_newline() {
    assert_eq!("4e1243bd22c66e76c2ba9eddc1f91394e57f9f83", hash_of(b"test\n"));
}

#[test]
fn known_vector_boundaries() {
    assert_eq!("c1c8bbdc22796e28c0e15163d20899b65621d65a", hash_of(&[b'a'; 55]));
    assert_eq!("c2db330f6083854c99d4b5bfb6e8f29f201be699", hash_of(&[b'a'; 56]));
    assert_eq!("0098ba824b5c16427bd7a1122a5a442a25ec644d", hash_of(&[b'a'; 64]));
}

#[test]
fn multi_block_one_call_or_split() {
    let message = [b'x'; 90];
    let whole = hash_of(&message);

    let mut sha1 = SHA1::new();
    sha1.ingest(message[..64].to_vec()).expect("first block refused");
    let mut rest = message[64..].to_vec();
    sha1.pad_message(&mut rest, message.len()).expect("padding refused");
    sha1.ingest(rest).expect("rest refused");
    assert_eq!(whole, sha1.digest());

    let mut padded = message.to_vec();
    sha1 = SHA1::new();
    sha1.pad_message(&mut padded, 90).expect("padding refused");
    assert_eq!(128, padded.len());
    sha1.ingest(padded[..64].to_vec()).expect("first half refused");
    sha1.ingest(padded[64..].to_vec()).expect("second half refused");
    assert_eq!(whole, sha1.digest());
}

#[test]
fn long_message_in_chunks() {
    let message = vec![b'a'; 1000];
    let mut sha1 = SHA1::new();
    let mut total = 0usize;
    for chunk in message.chunks(128) {
        total += chunk.len();
        if chunk.len() == 128 {
            sha1.ingest(chunk.to_vec()).expect("chunk refused");
        } else {
            let mut last = chunk.to_vec();
            sha1.pad_message(&mut last, total).expect("padding refused");
            sha1.ingest(last).expect("last chunk refused");
        }
    }
    assert_eq!("291e9a6c66994949b57ba5e650361e98fc36b1ba", sha1.digest());
}

#[test]
fn digest_twice_is_the_same() {
    let mut sha1 = SHA1::new();
    let mut input = b"abc".to_vec();
    sha1.pad_message(&mut input, 3).expect("padding refused");
    sha1.ingest(input).expect("ingest refused");
    let first = sha1.digest();
    let second = sha1.digest();
    assert_eq!(first, second);
    assert_eq!("a9993e364706816aba3e25717850c26c9cd0d89d", second);
}

#[test]
fn padding_shape_for_many_lengths() {
    let sha1 = SHA1::new();
    for len in 0..300usize {
        let msg: Vec<u8> = (0..len).map(|i| (i % 251) as u8 + 1).collect();
        let mut padded = msg.clone();
        sha1.pad_message(&mut padded, len).expect("padding refused");
        let n = padded.len();
        assert_eq!(0, n % 64);
        assert!(n >= len + 9 && n < len + 9 + 64);
        assert_eq!(&msg[..], &padded[..len]);
        assert_eq!(0x80, padded[len]);
        assert!(padded[len + 1..n - 8].iter().all(|b| *b == 0));
        assert_eq!(((len as u64) * 8).to_be_bytes(), padded[n - 8..]);
    }
}

#[test]
fn padding_uses_total_length() {
    let sha1 = SHA1::new();
    let mut last = b"xyz".to_vec();
    sha1.pad_message(&mut last, 8195).expect("padding refused");
    assert_eq!(64, last.len());
    assert_eq!(0x80, last[3]);
    assert_eq!((8195u64 * 8).to_be_bytes(), last[56..]);
}

#[test]
fn boundary_55_bytes_is_one_block() {
    let sha1 = SHA1::new();
    let mut input = vec![0x41u8; 55];
    sha1.pad_message(&mut input, 55).expect("padding refused");
    assert_eq!(64, input.len());
    assert_eq!(0x80, input[55]);
    assert_eq!([0, 0, 0, 0, 0, 0, 0x01, 0xb8], input[56..]);
}

#[test]
fn boundary_56_bytes_is_two_blocks() {
    let sha1 = SHA1::new();
    let mut input = vec![0x41u8; 56];
    sha1.pad_message(&mut input, 56).expect("padding refused");
    assert_eq!(128, input.len());
    assert_eq!(0x80, input[56]);
    assert!(input[57..120].iter().all(|b| *b == 0));
    assert_eq!([0, 0, 0, 0, 0, 0, 0x01, 0xc0], input[120..]);
}

#[test]
fn schedule_follows_recurrence() {
    let sha1 = SHA1::new();
    let mut block = [0u8; 64];
    for (i, b) in block.iter_mut().enumerate() {
        *b = (i as u8).wrapping_mul(37).wrapping_add(11);
    }
    let w = sha1.prepare_message_schedule(block);
    for i in 0..16 {
        let bytes = [block[4 * i], block[4 * i + 1], block[4 * i + 2], block[4 * i + 3]];
        assert_eq!(u32::from_be_bytes(bytes), w[i]);
    }
    for t in 16..80 {
        assert_eq!((w[t - 3] ^ w[t - 8] ^ w[t - 14] ^ w[t - 16]).rotate_left(1), w[t]);
    }
}

#[test]
fn ingest_refuses_partial_block() {
    let mut sha1 = SHA1::new();
    let before = sha1.digest();
    assert_eq!(
        Err(Sha1Error::BadMessageSize { len: 100 }),
        sha1.ingest(vec![0u8; 100])
    );
    assert_eq!(before, sha1.digest());
    assert_eq!(Ok(()), sha1.ingest(Vec::new()));
    assert_eq!(before, sha1.digest());
}

#[test]
fn pad_message_refuses_oversized_length() {
    let sha1 = SHA1::new();
    let mut input = b"abc".to_vec();
    assert_eq!(
        Err(Sha1Error::MessageTooLarge { total_size: usize::MAX }),
        sha1.pad_message(&mut input, usize::MAX)
    );
    assert_eq!(b"abc".to_vec(), input);
    let largest = 0x1fff_ffff_ffff_ffffusize;
    assert_eq!(Ok(()), sha1.pad_message(&mut input, largest));
    assert_eq!([0xff, 0xff, 0xff, 0xff, 0xff, 0xff, 0xff, 0xf8], input[56..]);
}

#[test]
fn rotl_and_round_functions_exact() {
    let sha1 = SHA1::new();
    assert_eq!(0x2345_6781, sha1.rotl_u32(0x1234_5678, 4));
    assert_eq!(0x8123_4567, sha1.rotl_u32(0x1234_5678, 28));
    assert_eq!(0xa5, sha1.ch(0xf0, 0xaa, 0x55));
    assert_eq!(0b1010, sha1.maj(0b1110, 0b1011, 0b0000));
    assert_eq!(0xca62c1d6, sha1.K(79));
    assert_eq!(sha1.parity(7, 9, 11), sha1.f(7, 9, 11, 79));
}
