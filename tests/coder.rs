use srx::{pipe, AnyError, Bit, BitDecoder, BitEncoder};

fn next(state: &mut u64) -> u64 {
    *state ^= *state << 13;
    *state ^= *state >> 7;
    *state ^= *state << 17;
    *state
}

#[test]
fn range_coder_round_trips_random_bits() {
    let mut seed = 0x1234_5678_9ABC_DEF1u64;
    let mut bits = Vec::new();
    let mut probs = Vec::new();
    let mut encoder = BitEncoder::new();
    for _ in 0..20000 {
        let p = (next(&mut seed) >> 32) as u32;
        let b = if next(&mut seed) % 3 == 0 { Bit::One } else { Bit::Zero };
        encoder.bit(p, b);
        assert!(encoder.low() < encoder.high());
        assert!((encoder.low() ^ encoder.high()) >= 0x0100_0000);
        bits.push(b);
        probs.push(p);
    }
    let coded = encoder.close();
    let mut decoder = BitDecoder::new(coded);
    for (b, p) in bits.iter().zip(probs.iter()) {
        assert_eq!(decoder.bit(*p), *b);
    }
    assert!(!decoder.exhausted());
}

#[test]
fn range_coder_even_bits_emit_one_byte_per_eight() {
    let mut encoder = BitEncoder::new();
    for i in 0..16 {
        encoder.bit(0x8000_0000, if i % 2 == 0 { Bit::One } else { Bit::Zero });
    }
    // Ones take the lower half, so 1010... gives 0x55 bytes.
    assert_eq!(encoder.take_output(), vec![0x55, 0x55]);
    assert_eq!(encoder.close(), vec![0x00]);
}

#[test]
fn decoder_reads_ff_past_the_end() {
    let mut decoder = BitDecoder::new(Vec::new());
    for _ in 0..64 {
        assert_eq!(decoder.bit(0x8000_0000), Bit::Zero);
    }
    assert!(decoder.exhausted());
}

#[test]
fn writing_to_a_closed_reader_is_a_broken_pipe() {
    let (mut writer, reader) = pipe::<u8, 2>(0);
    drop(reader);
    // The first write only fills the buffer; the second fills it and
    // tries to hand it over.
    assert!(writer.write(1).is_ok());
    assert!(matches!(writer.write(2), Err(AnyError::BrokenPipe)));
    assert!(matches!(writer.write(3), Err(AnyError::BrokenPipe)));
}

#[test]
fn error_from_text() {
    match AnyError::from_string("disk full") {
        AnyError::String(s) => assert_eq!(s, "disk full"),
        _ => panic!("wrong variant"),
    }
    assert!(AnyError::CorruptHeader.is_corrupt_header());
    assert!(!AnyError::BrokenPipe.is_corrupt_header());
}
