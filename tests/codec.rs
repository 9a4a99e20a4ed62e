use srx::{decode, encode, AnyError, Message, PackedMessage, PrimaryContextEncoder};

const HEADER: [u8; 4] = [0x73, 0x52, 0x78, 0x00];

/// A small deterministic generator for test data.
fn xorshift_bytes(len: usize, mut state: u64) -> Vec<u8> {
    let mut out = Vec::with_capacity(len);
    while out.len() < len {
        state ^= state << 13;
        state ^= state >> 7;
        state ^= state << 17;
        out.push((state >> 24) as u8);
    }
    out
}

/// The outcome letters of the primary model for `data`: F, S, T, or N for
/// a literal.
fn outcomes(data: &[u8]) -> String {
    let mut stage = PrimaryContextEncoder::new();
    let mut letters = String::new();
    for &b in data {
        let mut out = Vec::new();
        stage.encode(b, &mut out);
        let ms: Vec<Message> = out.iter().map(|p| p.get()).collect();
        let letter = match ms.as_slice() {
            [Message::Bit(_, srx::Bit::Zero)] => 'F',
            [_, _, Message::Byte(_, v)] => {
                assert_eq!(v.0, b);
                'N'
            }
            [_, _, Message::Bit(_, srx::Bit::Zero)] => 'S',
            [_, _, Message::Bit(_, srx::Bit::One)] => 'T',
            _ => panic!("unexpected message shape"),
        };
        letters.push(letter);
    }
    letters
}

#[test]
fn empty_input_is_header_and_end_marker() {
    let coded = encode(&[]);
    assert_eq!(coded, vec![0x73, 0x52, 0x78, 0x00, 0x7F, 0xC0]);
    assert_eq!(decode(&coded).unwrap(), Vec::<u8>::new());
}

#[test]
fn single_byte_is_two_literals() {
    let coded = encode(b"A");
    assert_eq!(coded, vec![0x73, 0x52, 0x78, 0x00, 0x6F, 0x9F, 0xF0]);
    assert_eq!(outcomes(b"A"), "N");
    assert_eq!(decode(&coded).unwrap(), b"A".to_vec());
}

#[test]
fn end_marker_is_a_literal_equal_to_the_first_byte() {
    let mut stage = PrimaryContextEncoder::new();
    let mut out = Vec::new();
    stage.encode(b'A', &mut out);
    out.clear();
    stage.finish(&mut out);
    let ms: Vec<Message> = out.iter().map(|p| p.get()).collect();
    assert_eq!(ms.len(), 3);
    assert!(matches!(ms[0], Message::Bit(_, srx::Bit::One)));
    assert!(matches!(ms[1], Message::Bit(_, srx::Bit::Zero)));
    assert!(matches!(ms[2], Message::Byte(_, b) if b.0 == 0));
}

#[test]
fn repeated_byte_in_fresh_contexts() {
    // Each of the first bytes lands in a slot that has seen nothing, so
    // every one is a literal; once the hash depends only on a run of the
    // same byte, the slot predicts it first.
    assert_eq!(outcomes(b"AAAA"), "NNNN");
    assert_eq!(outcomes(b"AAAAAAAAAA"), "NNNNNNFFFF");
    let coded = encode(b"AAAA");
    assert_eq!(decode(&coded).unwrap(), b"AAAA".to_vec());
}

#[test]
fn alternating_bytes() {
    assert_eq!(outcomes(b"ABAB"), "NNNN");
    assert_eq!(outcomes(b"ABABABABABABABAB"), "NNNNNNNFFFFFFFFF");
    let coded = encode(b"ABAB");
    assert_eq!(decode(&coded).unwrap(), b"ABAB".to_vec());
}

#[test]
fn second_and_third_matches() {
    // Context after "xyzwv" is reached three times; it sees a, b, a, then c, b.
    let mut data = Vec::new();
    for &next in b"abacb" {
        data.extend_from_slice(b"xyzwv");
        data.push(next);
    }
    let letters = outcomes(&data);
    let at_context: String = letters.chars().skip(5).step_by(6).collect();
    assert_eq!(at_context, "NNSNT");
    assert_eq!(decode(&encode(&data)).unwrap(), data);
}

#[test]
fn random_mebibyte_round_trip() {
    let data = xorshift_bytes(1 << 20, 0x9E37_79B9_7F4A_7C15);
    let coded = encode(&data);
    assert!(coded.len() >= data.len());
    // Each literal subtable sees only a few bytes, so the adaptive
    // predictors cost about a tenth more than the raw data.
    assert!(coded.len() <= data.len() + data.len() / 8, "coded length {}", coded.len());
    assert_eq!(decode(&coded).unwrap(), data);
}

#[test]
fn zero_mebibyte_compresses_to_little() {
    let data = vec![0u8; 1 << 20];
    let coded = encode(&data);
    assert!(coded.len() < 1000, "coded length {}", coded.len());
    assert_eq!(decode(&coded).unwrap(), data);
}

#[test]
fn text_round_trip() {
    let mut data = Vec::new();
    for i in 0..2000u32 {
        data.extend_from_slice(format!("line {} of some text, {}\n", i, i % 7).as_bytes());
    }
    let coded = encode(&data);
    assert!(coded.len() < data.len() / 2);
    assert_eq!(decode(&coded).unwrap(), data);
}

#[test]
fn every_byte_value_round_trips() {
    let data: Vec<u8> = (0..=255u8).chain((0..=255u8).rev()).collect();
    assert_eq!(decode(&encode(&data)).unwrap(), data);
}

#[test]
fn encoding_is_deterministic() {
    let data = xorshift_bytes(5000, 7);
    assert_eq!(encode(&data), encode(&data));
}

#[test]
fn output_starts_with_header() {
    for data in [&b""[..], b"x", b"hello world"] {
        assert_eq!(&encode(data)[..4], &HEADER);
    }
}

#[test]
fn wrong_header_is_rejected() {
    assert!(matches!(decode(b"sRx"), Err(AnyError::CorruptHeader)));
    assert!(matches!(decode(b""), Err(AnyError::CorruptHeader)));
    assert!(matches!(decode(b"sRy\x00\x7f\xc0"), Err(AnyError::CorruptHeader)));
    assert!(matches!(decode(b"SRx\x00\x7f\xc0"), Err(AnyError::CorruptHeader)));
    assert!(decode(b"sRx\x00").is_ok());
}

#[test]
fn packed_messages_unpack() {
    let p = PackedMessage::bit(0x4F_FFFF, srx::Bit::One);
    assert_eq!(p.0, 0x404F_FFFF);
    assert_eq!(p.get(), Message::Bit(0x4F_FFFF, srx::Bit::One));
    let q = PackedMessage::byte(0x3F_FF00, srx::Byte(0xAB));
    assert_eq!(q.0, 0x803F_FFAB);
    assert_eq!(q.get(), Message::Byte(0x3F_FF00, srx::Byte(0xAB)));
}
