use reliable_rw::copy_out;
use reliable_rw::Digest256;
use reliable_rw::ReliableEncap;
use reliable_rw::ReliableWriteError;
use sha2::Digest;

const MAGIC: &[u8] = b"reliable-encap";

fn encode_pieces(pieces: &[&[u8]]) -> Vec<u8> {
    let mut encapper = ReliableEncap::new();
    for piece in pieces {
        encapper.update(&piece.to_vec());
    }
    encapper.finish_write();
    encapper.finalize();
    encapper.drain_output()
}

fn decode(input: &[u8]) -> (Result<(), ReliableWriteError>, Vec<u8>) {
    let mut output: Vec<u8> = Vec::new();
    let r = copy_out(input, &mut output);
    (r, output)
}

fn sha256_of(bytes: &[u8]) -> Vec<u8> {
    let mut h = sha2::Sha256::new();
    h.update(bytes);
    h.finalize().to_vec()
}

fn hex_to_bytes(hex: &str) -> Vec<u8> {
    let digits: Vec<u8> = hex
        .bytes()
        .map(|b| match b {
            b'0'..=b'9' => b - b'0',
            b'a'..=b'f' => b - b'a' + 10,
            _ => panic!("bad hex digit"),
        })
        .collect();
    digits.chunks(2).map(|p| (p[0] << 4) | p[1]).collect()
}

#[test]
fn round_trip_single_piece() {
    let encoded = encode_pieces(&[b"hi"]);
    let (r, out) = decode(&encoded);
    assert!(r.is_ok());
    assert_eq!(out, b"hi".to_vec());
}

#[test]
fn round_trip_multiple_pieces() {
    let encoded = encode_pieces(&[b"hello", b" ", b"streaming", b" world"]);
    let (r, out) = decode(&encoded);
    assert!(r.is_ok());
    assert_eq!(out, b"hello streaming world".to_vec());
}

#[test]
fn round_trip_empty_stream() {
    let encoded = encode_pieces(&[]);
    let (r, out) = decode(&encoded);
    assert!(r.is_ok());
    assert_eq!(out, Vec::<u8>::new());
}

#[test]
fn round_trip_large_piece() {
    let big: Vec<u8> = (0..32768u32).map(|i| (i % 251) as u8).collect();
    let mut encapper = ReliableEncap::new();
    encapper.update(&big);
    encapper.finish_write();
    encapper.finalize();
    let encoded = encapper.drain_output();
    let (r, out) = decode(&encoded);
    assert!(r.is_ok());
    assert_eq!(out, big);
}

#[test]
fn example_stream_layout() {
    // One piece b"hi": prologue, length 0x00000002, payload 68 69,
    // checkpoint = digest(68 69), terminator with the unchanged checkpoint,
    // and a trailer holding that checkpoint once more.
    let digest_hi =
        hex_to_bytes("8f434346648f6b96df89dda901c5176b10a6d83961dd3c1ac88b59b2dc327aa4");
    let mut expected: Vec<u8> = Vec::new();
    expected.extend_from_slice(MAGIC);
    expected.extend_from_slice(&[0, 0, 0, 2]);
    expected.extend_from_slice(&[0x68, 0x69]);
    expected.extend_from_slice(&digest_hi);
    expected.extend_from_slice(&[0, 0, 0, 0]);
    expected.extend_from_slice(&digest_hi);
    expected.extend_from_slice(&digest_hi);

    let encoded = encode_pieces(&[b"hi"]);
    assert_eq!(encoded, expected);

    let (r, out) = decode(&expected);
    assert!(r.is_ok());
    assert_eq!(out, vec![0x68, 0x69]);
}

#[test]
fn checkpoint_determinism_across_prefixes() {
    // Every checkpoint embedded on the wire equals the digest, recomputed
    // independently, of the concatenated payloads up to and including that
    // piece; the terminator and trailer repeat the final one.
    let pieces: [&[u8]; 3] = [b"abc", b"defg", b"h"];
    let encoded = encode_pieces(&pieces);
    let mut offset = MAGIC.len();
    let mut absorbed: Vec<u8> = Vec::new();
    for piece in pieces {
        absorbed.extend_from_slice(piece);
        offset += 4 + piece.len();
        assert_eq!(encoded[offset..offset + 32].to_vec(), sha256_of(&absorbed));
        offset += 32;
    }
    // terminator: zero length, unchanged checkpoint
    assert_eq!(&encoded[offset..offset + 4], &[0, 0, 0, 0]);
    assert_eq!(encoded[offset + 4..offset + 36].to_vec(), sha256_of(&absorbed));
    // trailer
    assert_eq!(encoded[offset + 36..].to_vec(), sha256_of(&absorbed));
}

#[test]
fn tamper_detection_every_bit() {
    // Flipping any single bit in any payload byte or any checkpoint region
    // (including terminator checkpoint and trailer) must give IntegrityError.
    let pieces: [&[u8]; 2] = [b"hello", b"world"];
    let encoded = encode_pieces(&pieces);
    // regions: [start, end) pairs of payloads and checkpoints
    let regions: [(usize, usize); 6] = [
        (18, 23),    // payload of piece 1
        (23, 55),    // checkpoint of piece 1
        (59, 64),    // payload of piece 2
        (64, 96),    // checkpoint of piece 2
        (100, 132),  // terminator checkpoint
        (132, 164),  // trailer
    ];
    assert_eq!(encoded.len(), 164);
    for &(start, end) in regions.iter() {
        for index in start..end {
            for bit in 0..8 {
                let mut tampered = encoded.clone();
                tampered[index] ^= 1 << bit;
                let (r, _) = decode(&tampered);
                assert_eq!(r, Err(ReliableWriteError::IntegrityError));
            }
        }
    }
}

#[test]
fn oversize_length_rejected() {
    // A declared length of MAX_PIECE_SIZE + 1 is a ProtocolError at once,
    // whether or not any payload bytes follow the length field.
    let mut stream: Vec<u8> = MAGIC.to_vec();
    stream.extend_from_slice(&[0x00, 0x04, 0x00, 0x01]); // 262145 big-endian
    let (r, out) = decode(&stream);
    assert_eq!(r, Err(ReliableWriteError::ProtocolError));
    assert!(out.is_empty());

    stream.extend_from_slice(&[0xaa; 64]);
    let (r2, out2) = decode(&stream);
    assert_eq!(r2, Err(ReliableWriteError::ProtocolError));
    assert!(out2.is_empty());
}

#[test]
fn max_size_length_is_not_oversize() {
    // Exactly MAX_PIECE_SIZE is within bounds: the decoder reads on and then
    // fails only because the payload is missing.
    let mut stream: Vec<u8> = MAGIC.to_vec();
    stream.extend_from_slice(&[0x00, 0x04, 0x00, 0x00]); // 262144 big-endian
    let (r, _) = decode(&stream);
    assert_eq!(r, Err(ReliableWriteError::ReadError));
}

#[test]
fn truncation_after_payload_rejected() {
    // Cut right after the first piece's payload, before its checkpoint.
    let encoded = encode_pieces(&[b"hello", b"world"]);
    let cut = MAGIC.len() + 4 + 5;
    let (r, out) = decode(&encoded[..cut]);
    assert_eq!(r, Err(ReliableWriteError::ReadError));
    // The unverified payload was already forwarded; the commit layer discards it.
    assert_eq!(out, b"hello".to_vec());
}

#[test]
fn truncation_mid_payload_rejected() {
    let encoded = encode_pieces(&[b"hello"]);
    let cut = MAGIC.len() + 4 + 2;
    let (r, out) = decode(&encoded[..cut]);
    assert_eq!(r, Err(ReliableWriteError::ReadError));
    assert!(out.is_empty());
}

#[test]
fn truncation_missing_trailer_rejected() {
    let encoded = encode_pieces(&[b"hello"]);
    let cut = encoded.len() - 32;
    let (r, _) = decode(&encoded[..cut]);
    assert_eq!(r, Err(ReliableWriteError::ReadError));
}

#[test]
fn bad_prologue_rejected() {
    let mut encoded = encode_pieces(&[b"hi"]);
    encoded[0] ^= 0x01;
    let (r, out) = decode(&encoded);
    assert_eq!(r, Err(ReliableWriteError::ProtocolError));
    assert!(out.is_empty());
}

#[test]
fn short_prologue_rejected() {
    let (r, out) = decode(b"reliable");
    assert_eq!(r, Err(ReliableWriteError::ReadError));
    assert!(out.is_empty());
}

#[test]
fn trailing_bytes_after_trailer_ignored() {
    let mut encoded = encode_pieces(&[b"hi"]);
    encoded.extend_from_slice(b"junk after the stream");
    let (r, out) = decode(&encoded);
    assert!(r.is_ok());
    assert_eq!(out, b"hi".to_vec());
}

#[test]
fn digest_adapter_matches_reference() {
    // The adapter's checkpoint is the real digest of the absorbed bytes, and
    // absorbing in several steps equals absorbing the concatenation.
    let expected =
        hex_to_bytes("8f434346648f6b96df89dda901c5176b10a6d83961dd3c1ac88b59b2dc327aa4");
    let mut whole = Digest256::new();
    whole.absorb(b"hi");
    assert_eq!(whole.checkpoint(), expected);
    let mut split = Digest256::new();
    split.absorb(b"h");
    split.absorb(b"i");
    assert_eq!(split.checkpoint(), expected);
    assert_eq!(whole.output_size(), 32);
    // a checkpoint does not disturb further absorbing
    whole.absorb(b"!");
    assert_eq!(whole.checkpoint(), sha256_of(b"hi!"));
}

#[test]
fn encoder_drains_incrementally() {
    // Draining after every operation yields the same wire bytes as one drain
    // at the end: the encoder is usable as a streaming source.
    let mut streamed: Vec<u8> = Vec::new();
    let mut encapper = ReliableEncap::new();
    streamed.extend_from_slice(&encapper.drain_output());
    encapper.update(&b"hello".to_vec());
    streamed.extend_from_slice(&encapper.drain_output());
    encapper.update(&b"world".to_vec());
    streamed.extend_from_slice(&encapper.drain_output());
    encapper.finish_write();
    streamed.extend_from_slice(&encapper.drain_output());
    encapper.finalize();
    streamed.extend_from_slice(&encapper.drain_output());
    assert_eq!(streamed, encode_pieces(&[b"hello", b"world"]));
}

#[test]
fn staging_path_appends_fixed_suffix() {
    let staging = reliable_rw::sink::staging_path(b"output.bin");
    assert_eq!(staging, b"output.bin.tmp".to_vec());
}

#[test]
fn size_bounds_agree() {
    // encode-side chunking target stays within the decode-side hard limit
    assert_eq!(reliable_rw::wire::max_piece_size_value(), 262144);
    assert_eq!(reliable_rw::wire::piece_size_value(), 32768);
    assert!(reliable_rw::wire::piece_size_value() <= reliable_rw::wire::max_piece_size_value());
}
