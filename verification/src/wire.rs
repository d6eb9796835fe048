//! The wire format: magic prologue, big-endian length fields, frames made of
//! a piece plus a running-digest checkpoint, terminator and trailer — and the
//! specification-level decoder that defines what any stream decodes to.

use vstd::prelude::*;

use crate::digest::digest_of;
use crate::digest::digest_size;
use crate::ReliableWriteError;

verus! {

/// Hard upper bound on the length of a piece the decoder will accept.
pub open spec fn max_piece_size() -> int {
    262144
}

/// The encoder self-limits outgoing pieces to this smaller bound.
pub open spec fn piece_size() -> int {
    32768
}

/// Decode-side piece length limit, as a runtime value.
pub fn max_piece_size_value() -> (r: u32)
    ensures
        r as int == max_piece_size(),
{
    262144
}

/// Encode-side piece length target, as a runtime value.
pub fn piece_size_value() -> (r: u32)
    ensures
        r as int == piece_size(),
{
    32768
}

/// The magic prologue that opens every stream: the bytes of "reliable-encap".
pub open spec fn magic_seq() -> Seq<u8> {
    seq![114u8, 101u8, 108u8, 105u8, 97u8, 98u8, 108u8, 101u8, 45u8, 101u8, 110u8, 99u8, 97u8, 112u8]
}

/// The magic prologue as a runtime value.
pub fn magic_bytes() -> (r: Vec<u8>)
    ensures
        r@ == magic_seq(),
{
    let mut r: Vec<u8> = Vec::new();
    r.push(114u8);
    r.push(101u8);
    r.push(108u8);
    r.push(105u8);
    r.push(97u8);
    r.push(98u8);
    r.push(108u8);
    r.push(101u8);
    r.push(45u8);
    r.push(101u8);
    r.push(110u8);
    r.push(99u8);
    r.push(97u8);
    r.push(112u8);
    proof {
        assert(r@ =~= magic_seq());
    }
    r
}

/// The four bytes of `n` in big-endian order.
pub open spec fn be32_bytes(n: u32) -> Seq<u8> {
    seq![(n >> 24u32) as u8, (n >> 16u32) as u8, (n >> 8u32) as u8, n as u8]
}

/// The value of four big-endian bytes.
pub open spec fn be32_value(s: Seq<u8>) -> u32
    recommends
        s.len() == 4,
{
    ((s[0] as u32) << 24u32) | ((s[1] as u32) << 16u32) | ((s[2] as u32) << 8u32) | (s[3] as u32)
}

/// A big-endian length field reads back as the value it was written from.
pub proof fn lemma_be32_round_trip(n: u32)
    ensures
        be32_value(be32_bytes(n)) == n,
{
    assert((((((n >> 24u32) as u8) as u32) << 24u32) | ((((n >> 16u32) as u8) as u32) << 16u32)
        | ((((n >> 8u32) as u8) as u32) << 8u32) | ((n as u8) as u32)) == n) by (bit_vector);
}

/// Appends the four big-endian bytes of `n` to `out`.
pub fn push_be32(out: &mut Vec<u8>, n: u32)
    ensures
        final(out)@ == old(out)@ + be32_bytes(n),
{
    out.push((n >> 24u32) as u8);
    out.push((n >> 16u32) as u8);
    out.push((n >> 8u32) as u8);
    out.push(n as u8);
    proof {
        assert(out@ =~= old(out)@ + be32_bytes(n));
    }
}

/// Reads a big-endian 32-bit value from four bytes.
pub fn be32_from(b0: u8, b1: u8, b2: u8, b3: u8) -> (r: u32)
    ensures
        r == be32_value(seq![b0, b1, b2, b3]),
{
    ((b0 as u32) << 24u32) | ((b1 as u32) << 16u32) | ((b2 as u32) << 8u32) | (b3 as u32)
}

/// One piece as it stands on the wire: length field, payload, then the
/// checkpoint over everything absorbed so far including this piece.
pub open spec fn frame_seq(absorbed: Seq<u8>, piece: Seq<u8>) -> Seq<u8> {
    be32_bytes(piece.len() as u32) + piece + digest_of(absorbed + piece)
}

/// The frames of `pieces` in order, with `absorbed` already absorbed before
/// the first of them.
pub open spec fn frames_seq(absorbed: Seq<u8>, pieces: Seq<Seq<u8>>) -> Seq<u8>
    decreases pieces.len(),
{
    if pieces.len() == 0 {
        Seq::empty()
    } else {
        frame_seq(absorbed, pieces.first()) + frames_seq(
            absorbed + pieces.first(),
            pieces.drop_first(),
        )
    }
}

/// The terminator: a zero length field plus the unchanged final checkpoint.
pub open spec fn terminator_seq(absorbed: Seq<u8>) -> Seq<u8> {
    be32_bytes(0) + digest_of(absorbed)
}

/// The complete wire encoding of `pieces`: prologue, frames, terminator,
/// and one final trailer copy of the last checkpoint.
pub open spec fn encoding_of(pieces: Seq<Seq<u8>>) -> Seq<u8> {
    magic_seq() + frames_seq(Seq::empty(), pieces) + terminator_seq(pieces.flatten())
        + digest_of(pieces.flatten())
}

/// What decoding the piece frames of `input` yields, with `absorbed` already
/// absorbed into the running digest. The first component is the outcome; the
/// second is every payload byte forwarded to the sink before the outcome was
/// known (payloads are forwarded before their checkpoint is verified).
pub open spec fn decode_frames(input: Seq<u8>, absorbed: Seq<u8>) -> (Result<
    (),
    ReliableWriteError,
>, Seq<u8>)
    decreases input.len(),
{
    if input.len() < 4 {
        (Err(ReliableWriteError::ReadError), Seq::empty())
    } else {
        let n = be32_value(input.subrange(0, 4)) as int;
        if n > max_piece_size() {
            (Err(ReliableWriteError::ProtocolError), Seq::empty())
        } else if input.len() < 4 + n {
            (Err(ReliableWriteError::ReadError), Seq::empty())
        } else {
            let payload = input.subrange(4, 4 + n);
            let absorbed2 = absorbed + payload;
            if input.len() < 4 + n + digest_size() {
                (Err(ReliableWriteError::ReadError), payload)
            } else if input.subrange(4 + n, 4 + n + digest_size()) != digest_of(absorbed2) {
                (Err(ReliableWriteError::IntegrityError), payload)
            } else if n == 0 {
                let rest = input.skip(4 + n + digest_size());
                if rest.len() < digest_size() {
                    (Err(ReliableWriteError::ReadError), payload)
                } else if rest.subrange(0, digest_size()) != digest_of(absorbed2) {
                    (Err(ReliableWriteError::IntegrityError), payload)
                } else {
                    (Ok(()), payload)
                }
            } else {
                let tail = decode_frames(input.skip(4 + n + digest_size()), absorbed2);
                (tail.0, payload + tail.1)
            }
        }
    }
}

/// What decoding a whole stream yields: prologue check, then the frames.
pub open spec fn spec_decode(input: Seq<u8>) -> (Result<(), ReliableWriteError>, Seq<u8>) {
    if input.len() < magic_seq().len() {
        (Err(ReliableWriteError::ReadError), Seq::empty())
    } else if input.subrange(0, magic_seq().len() as int) != magic_seq() {
        (Err(ReliableWriteError::ProtocolError), Seq::empty())
    } else {
        decode_frames(input.skip(magic_seq().len() as int), Seq::empty())
    }
}

} // verus!
