use print_raster::decoder::CompressedRasterDecoder;
use print_raster::encoder::CompressedRasterEncoder;
use print_raster::error::CodecError;
use print_raster::limits::Limits;

const SAMPLE_DECODED: &[u8] = &[
    0xff, 0xff, 0xff, 0xff, 0xff, 0x00, 0xff, 0xff, 0x00, 0xff, 0xff, 0x00,
    0xff, 0xff, 0xff, 0xff, 0xff, 0xff, 0xff, 0xff, 0xff, 0xff, 0xff, 0xff,
    0xff, 0xff, 0x00, 0x00, 0x00, 0xff, 0xff, 0xff, 0x00, 0xff, 0xff, 0xff,
    0xff, 0xff, 0xff, 0xff, 0xff, 0xff, 0x00, 0xff, 0x00, 0xff, 0xff, 0xff,
    0xff, 0xff, 0x00, 0xff, 0xff, 0x00, 0xff, 0xff, 0xff, 0xff, 0xff, 0xff,
    0xff, 0xff, 0xff, 0x00, 0xff, 0x00, 0x00, 0xff, 0x00, 0x00, 0xff, 0x00,
    0xff, 0xff, 0x00, 0xff, 0xff, 0x00, 0xff, 0xff, 0x00, 0xff, 0xff, 0xff,
    0xff, 0xff, 0xff, 0xff, 0xff, 0xff, 0x00, 0xff, 0x00, 0xff, 0xff, 0xff,
    0xff, 0xff, 0xff, 0xff, 0xff, 0x00, 0xff, 0xff, 0x00, 0xff, 0xff, 0x00,
    0xff, 0xff, 0xff, 0xff, 0xff, 0xff, 0xff, 0xff, 0xff, 0xff, 0xff, 0xff,
    0xff, 0xff, 0xff, 0xff, 0xff, 0xff, 0xff, 0xff, 0xff, 0xff, 0xff, 0xff,
    0xff, 0xff, 0xff, 0xff, 0xff, 0xff, 0xff, 0xff, 0xff, 0xff, 0xff, 0xff,
    0xff, 0x00, 0x00, 0xff, 0x00, 0x00, 0xff, 0x00, 0x00, 0xff, 0x00, 0x00,
    0xff, 0x00, 0x00, 0xff, 0x00, 0x00, 0xff, 0x00, 0x00, 0xff, 0x00, 0x00,
    0xff, 0x00, 0x00, 0xff, 0x00, 0x00, 0xff, 0x00, 0x00, 0xff, 0x00, 0x00,
    0xff, 0x00, 0x00, 0xff, 0x00, 0x00, 0xff, 0x00, 0x00, 0xff, 0x00, 0x00,
];

const SAMPLE_ENCODED: &[u8] = &[
    0x00, 0x00, 0xff, 0xff, 0xff, 0x02, 0xff, 0xff, 0x00, 0x03, 0xff, 0xff,
    0xff, 0x00, 0xfe, 0xff, 0xff, 0x00, 0x00, 0x00, 0xff, 0xff, 0xff, 0x00,
    0x02, 0xff, 0xff, 0xff, 0x00, 0x00, 0xff, 0x00, 0x00, 0xff, 0xff, 0xff,
    0x00, 0x01, 0xff, 0xff, 0x00, 0x02, 0xff, 0xff, 0xff, 0x02, 0x00, 0xff,
    0x00, 0x00, 0x02, 0xff, 0xff, 0x00, 0x02, 0xff, 0xff, 0xff, 0x00, 0x00,
    0xff, 0x00, 0x00, 0xff, 0xff, 0xff, 0x00, 0x00, 0xff, 0xff, 0xff, 0x02,
    0xff, 0xff, 0x00, 0x03, 0xff, 0xff, 0xff, 0x00, 0x07, 0xff, 0xff, 0xff,
    0x01, 0x07, 0xff, 0x00, 0x00,
];

const REPETITIVE_ENCODED: &[u8] = &[
    0xff, 0x7f, 0xcc, 0xcc, 0xcc, 0x7f, 0xcc, 0xcc, 0xcc, 0x7f, 0xcc, 0xcc,
    0xcc, 0x7f, 0xcc, 0xcc, 0xcc, 0xff, 0x7f, 0xcc, 0xcc, 0xcc, 0x7f, 0xcc,
    0xcc, 0xcc, 0x7f, 0xcc, 0xcc, 0xcc, 0x7f, 0xcc, 0xcc, 0xcc,
];

/// Decodes `input`, handing the decoder at most `step` input bytes and asking for at most
/// `max` output bytes per call.
fn decode_all(
    decoder: &mut CompressedRasterDecoder,
    input: &[u8],
    step: usize,
    max: usize,
) -> Result<Vec<u8>, CodecError> {
    let mut out = Vec::new();
    let mut pos: usize = 0;
    loop {
        let end = pos.saturating_add(step).min(input.len());
        let eof = end == input.len();
        let p = decoder.read(&input[pos..end], eof, max, &mut out)?;
        pos += p.consumed;
        if p.produced == 0 && !p.pending {
            return Ok(out);
        }
        if p.pending && eof {
            return Ok(out);
        }
    }
}

/// Encodes `input`, handing the encoder at most `step` input bytes and `room` bytes of room
/// per call.
fn encode_all(
    encoder: &mut CompressedRasterEncoder,
    input: &[u8],
    step: usize,
    room: usize,
) -> Vec<u8> {
    let mut out = Vec::new();
    let mut pos: usize = 0;
    loop {
        let end = pos.saturating_add(step).min(input.len());
        let p = encoder.write(&input[pos..end], room, false, &mut out).unwrap();
        pos += p.consumed;
        if p.consumed == 0 && p.produced == 0 {
            return out;
        }
    }
}

#[test]
fn test_decompress() {
    let mut decoder =
        CompressedRasterDecoder::new(&Limits::no_limits(), 3, 3 * 8, 3 * 8 * 8, 0).unwrap();
    let decoded = decode_all(&mut decoder, SAMPLE_ENCODED, usize::MAX, 4096).unwrap();
    assert_eq!(decoded, SAMPLE_DECODED);
}

#[test]
fn test_uncompress_highly_repetitive_data() {
    const WIDTH: u64 = 512;
    const HEIGHT: u64 = 512;
    let expected = vec![0xccu8; WIDTH as usize * HEIGHT as usize * 3];
    let mut decoder =
        CompressedRasterDecoder::new(&Limits::no_limits(), 3, WIDTH * 3, WIDTH * HEIGHT * 3, 0)
            .unwrap();
    let decoded = decode_all(&mut decoder, REPETITIVE_ENCODED, usize::MAX, 8192).unwrap();
    assert_eq!(decoded, expected);
}

#[test]
fn test_uncompress_zero() {
    let mut decoder = CompressedRasterDecoder::new(&Limits::no_limits(), 0, 0, 0, 0).unwrap();
    let decoded = decode_all(&mut decoder, &[], usize::MAX, 4096).unwrap();
    assert_eq!(decoded, Vec::<u8>::new());
}

#[test]
fn test_compress() {
    let mut encoder = CompressedRasterEncoder::new(3, 3 * 8, 3 * 8 * 8).unwrap();
    let encoded = encode_all(&mut encoder, SAMPLE_DECODED, usize::MAX, usize::MAX);
    assert_eq!(encoded, SAMPLE_ENCODED);
}

#[test]
fn test_compress_highly_repetitive_data() {
    const WIDTH: u64 = 512;
    const HEIGHT: u64 = 512;
    let input = vec![0xccu8; WIDTH as usize * HEIGHT as usize * 3];
    let mut encoder = CompressedRasterEncoder::new(3, WIDTH * 3, WIDTH * HEIGHT * 3).unwrap();
    let encoded = encode_all(&mut encoder, &input, usize::MAX, usize::MAX);
    assert_eq!(encoded, REPETITIVE_ENCODED);
}

#[test]
fn test_compress_zero() {
    let mut encoder = CompressedRasterEncoder::new(0, 0, 0).unwrap();
    let encoded = encode_all(&mut encoder, &[], usize::MAX, usize::MAX);
    assert_eq!(encoded, Vec::<u8>::new());
}

#[test]
fn decode_one_byte_at_a_time_matches_whole() {
    let mut whole = CompressedRasterDecoder::new(&Limits::no_limits(), 3, 24, 192, 0).unwrap();
    let mut bytewise = CompressedRasterDecoder::new(&Limits::no_limits(), 3, 24, 192, 0).unwrap();
    let a = decode_all(&mut whole, SAMPLE_ENCODED, usize::MAX, usize::MAX).unwrap();
    let b = decode_all(&mut bytewise, SAMPLE_ENCODED, 1, 1).unwrap();
    assert_eq!(a, b);
    assert_eq!(b, SAMPLE_DECODED);
    assert_eq!(bytewise.bytes_remaining(), 0);
}

#[test]
fn encode_one_byte_at_a_time_matches_whole() {
    let mut encoder = CompressedRasterEncoder::new(3, 24, 192).unwrap();
    let encoded = encode_all(&mut encoder, SAMPLE_DECODED, 1, 1);
    assert_eq!(encoded, SAMPLE_ENCODED);
    assert_eq!(encoder.bytes_remaining(), 0);
}

#[test]
fn round_trip_mixed_lines() {
    let mut data = Vec::new();
    for line in 0..7u8 {
        for i in 0..12u8 {
            data.push(if line % 3 == 0 { 7 } else { i / 4 + line });
        }
    }
    let mut encoder = CompressedRasterEncoder::new(2, 12, data.len() as u64).unwrap();
    let encoded = encode_all(&mut encoder, &data, 5, 3);
    let mut decoder =
        CompressedRasterDecoder::new(&Limits::no_limits(), 2, 12, data.len() as u64, 0).unwrap();
    let decoded = decode_all(&mut decoder, &encoded, 2, 7).unwrap();
    assert_eq!(decoded, data);
}

#[test]
fn fill_opcode_completes_line() {
    // one line of 6 bytes: a verbatim chunk of 3 bytes, then fill to the end of the line
    let input = [0x00, 0x00, 1, 2, 3, 0x80];
    let mut decoder = CompressedRasterDecoder::new(&Limits::no_limits(), 3, 6, 6, 0xFF).unwrap();
    let decoded = decode_all(&mut decoder, &input, usize::MAX, 64).unwrap();
    assert_eq!(decoded, vec![1, 2, 3, 0xFF, 0xFF, 0xFF]);
}

#[test]
fn overrunning_block_is_invalid_data() {
    // a run of 3 chunks of 3 bytes in a line of 6 bytes
    let input = [0x00, 0x02, 1, 2, 3];
    let mut decoder = CompressedRasterDecoder::new(&Limits::no_limits(), 3, 6, 6, 0).unwrap();
    assert_eq!(decode_all(&mut decoder, &input, usize::MAX, 64), Err(CodecError::InvalidData));
}

#[test]
fn truncated_block_is_unexpected_eof() {
    let input = [0x00, 0xFF, 1, 2, 3];
    let mut decoder = CompressedRasterDecoder::new(&Limits::no_limits(), 3, 6, 6, 0).unwrap();
    let mut out = Vec::new();
    let first = decoder.read(&input, true, 64, &mut out).unwrap();
    assert_eq!(first.produced, 3);
    assert_eq!(decoder.read(&input[first.consumed..], true, 64, &mut out), Err(CodecError::UnexpectedEof));
}

#[test]
fn decoder_limits_are_enforced() {
    let limits = Limits { bytes_per_line: 24, bytes_per_page: 192 };
    assert!(CompressedRasterDecoder::new(&limits, 3, 24, 192, 0).is_ok());
    assert_eq!(CompressedRasterDecoder::new(&limits, 3, 27, 27 * 4, 0).err(), Some(CodecError::InvalidData));
    assert_eq!(CompressedRasterDecoder::new(&limits, 3, 24, 216, 0).err(), Some(CodecError::InvalidData));
}

#[test]
fn inconsistent_layout_is_rejected() {
    assert_eq!(CompressedRasterDecoder::new(&Limits::no_limits(), 3, 25, 50, 0).err(), Some(CodecError::InvalidData));
    assert_eq!(CompressedRasterDecoder::new(&Limits::no_limits(), 3, 24, 50, 0).err(), Some(CodecError::InvalidData));
    assert_eq!(CompressedRasterEncoder::new(0, 24, 48).err(), Some(CodecError::InvalidData));
}

#[test]
fn closed_transport_is_write_zero() {
    let mut encoder = CompressedRasterEncoder::new(1, 2, 2).unwrap();
    let mut out = Vec::new();
    assert_eq!(encoder.write(&[5, 5], 0, true, &mut out), Err(CodecError::WriteZero));
}

#[test]
fn round_trip_repeat_cap_and_chunk_sizes() {
    for chunk in 1u8..=4 {
        let line_len = chunk as usize * 6;
        let mut data = Vec::new();
        // 300 equal lines: more than one line group can hold
        for _ in 0..300 {
            for i in 0..line_len {
                data.push((i % 3) as u8);
            }
        }
        // lines that differ from the one before at various offsets
        for k in 0..line_len {
            for i in 0..line_len {
                data.push(if i == k { 9 } else { (i % 3) as u8 });
            }
        }
        let total = data.len() as u64;
        let mut encoder = CompressedRasterEncoder::new(chunk, line_len as u64, total).unwrap();
        let encoded = encode_all(&mut encoder, &data, 7, 5);
        assert_eq!(encoded[0], 0xFF);
        let mut decoder =
            CompressedRasterDecoder::new(&Limits::no_limits(), chunk, line_len as u64, total, 0)
                .unwrap();
        let decoded = decode_all(&mut decoder, &encoded, 3, 11).unwrap();
        assert_eq!(decoded, data);
    }
}
